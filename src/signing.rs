use vstd::prelude::*;
use vstd::string::*;
use crate::text::{push_decimal, decimal_spec};

verus! {

/// Bytes of signature container that every signature needs besides its certificate.
pub const SIGNATURE_OVERHEAD: usize = 1024;

/// Bytes estimated for the response of a time-stamp authority, where one is used.
pub const TSA_RESPONSE_ESTIMATE: usize = 10000;

/// How a manifest gets signed.
pub enum SignerMode {
    /// With a key held in this process.
    Local,
    /// By running the executable at this path once for each signature.
    ExternalProcess { executable: String },
}

/// Why signing failed.
#[derive(Debug, PartialEq, Eq)]
pub enum SigningError {
    /// The signing process failed or gave no signature; what it wrote to its error channel.
    ExternalProcessFailed { stderr: String },
    /// The signature does not fit in the space reserved for it.
    ReserveSizeExceeded { required: usize, available: usize },
    /// No key was given for local signing.
    LocalSignerUnavailable,
}

/// The signer for an invocation: an external process where an executable is given.
pub fn signer_mode(signer_path: Option<String>) -> (r: SignerMode)
    ensures
        match signer_path {
            Some(p) => r == SignerMode::ExternalProcess { executable: p },
            None => r == SignerMode::Local,
        },
{
    match signer_path {
        Some(p) => SignerMode::ExternalProcess { executable: p },
        None => SignerMode::Local,
    }
}

/// The space estimated for a signature: the container overhead, the certificate,
/// and the time-stamp response where a time-stamp authority is used.
pub open spec fn default_reserve_size_spec(cert_len: nat, uses_tsa: bool, tsa_estimate: nat) -> nat {
    (SIGNATURE_OVERHEAD as nat + cert_len + if uses_tsa {
        tsa_estimate
    } else {
        0nat
    }) as nat
}

/// The space for a signature: the size given, else the estimate.
pub open spec fn reserve_size_spec(
    explicit: Option<usize>,
    cert_len: nat,
    uses_tsa: bool,
    tsa_estimate: nat,
) -> nat {
    match explicit {
        Some(n) => n as nat,
        None => default_reserve_size_spec(cert_len, uses_tsa, tsa_estimate),
    }
}

/// Computes the space to reserve for the signature of a manifest signed with a
/// certificate of `cert_len` bytes; `tsa_url` is the time-stamp authority, if any,
/// whose response is estimated at `tsa_estimate` bytes.
pub fn reserve_size(
    explicit: Option<usize>,
    cert_len: usize,
    tsa_url: &Option<String>,
    tsa_estimate: usize,
) -> (r: usize)
    requires
        SIGNATURE_OVERHEAD + cert_len + tsa_estimate <= usize::MAX,
    ensures
        r as nat == reserve_size_spec(explicit, cert_len as nat, tsa_url is Some, tsa_estimate as nat),
{
    match explicit {
        Some(n) => n,
        None => {
            let tsa: usize = if tsa_url.is_some() {
                tsa_estimate
            } else {
                0
            };
            SIGNATURE_OVERHEAD + cert_len + tsa
        },
    }
}

/// The estimate of the reserve size never falls short of the overhead and the
/// certificate; it equals them without a time-stamp authority, and exceeds them
/// with one whose response is estimated above zero.
pub proof fn lemma_reserve_size_bounds(cert_len: nat, uses_tsa: bool, tsa_estimate: nat)
    ensures
        default_reserve_size_spec(cert_len, uses_tsa, tsa_estimate) >= SIGNATURE_OVERHEAD + cert_len,
        !uses_tsa ==> default_reserve_size_spec(cert_len, uses_tsa, tsa_estimate) == SIGNATURE_OVERHEAD
            + cert_len,
        uses_tsa && tsa_estimate > 0 ==> default_reserve_size_spec(cert_len, uses_tsa, tsa_estimate)
            > SIGNATURE_OVERHEAD + cert_len,
{
}

/// The outcome of one run of the signing process.
pub open spec fn external_signature_spec(
    exit_ok: bool,
    output: Seq<u8>,
    stderr: String,
    reserve: usize,
) -> Result<Seq<u8>, SigningError> {
    if !exit_ok || output.len() == 0 {
        Err(SigningError::ExternalProcessFailed { stderr })
    } else if output.len() > reserve {
        Err(SigningError::ReserveSizeExceeded { required: output.len() as usize, available: reserve })
    } else {
        Ok(output)
    }
}

/// Reads the result of one run of the signing process: its exit status, what it
/// wrote to its output channel and to its error channel. A failed run, or one that
/// gave no bytes, fails with its error text; a signature larger than `reserve`
/// bytes fails rather than being cut.
pub fn external_signature(exit_ok: bool, output: Vec<u8>, stderr: String, reserve: usize) -> (r:
    Result<Vec<u8>, SigningError>)
    ensures
        match external_signature_spec(exit_ok, output@, stderr, reserve) {
            Ok(s) => r is Ok && r->Ok_0@ == s,
            Err(e) => r == Err::<Vec<u8>, SigningError>(e),
        },
{
    if !exit_ok || output.len() == 0 {
        Err(SigningError::ExternalProcessFailed { stderr })
    } else if output.len() > reserve {
        Err(SigningError::ReserveSizeExceeded { required: output.len(), available: reserve })
    } else {
        Ok(output)
    }
}

/// The arguments with which the signing process is run: the reserve size, the
/// algorithm and the path of the signing certificate. The bytes to sign go to its
/// input channel.
pub open spec fn signer_args_spec(reserve: usize, alg: Seq<char>, sign_cert: Seq<char>) -> Seq<
    Seq<char>,
> {
    seq!["--reserve-size"@, decimal_spec(reserve as nat), "--alg"@, alg, "--sign-cert"@, sign_cert]
}

pub fn signer_args(reserve: usize, alg: &str, sign_cert: &str) -> (r: Vec<String>)
    ensures
        r@.map_values(|s: String| s@) == signer_args_spec(reserve, alg@, sign_cert@),
{
    let mut size = String::new();
    push_decimal(&mut size, reserve);
    assert(size@ =~= decimal_spec(reserve as nat));
    let r = vec![
        "--reserve-size".to_string(),
        size,
        "--alg".to_string(),
        alg.to_string(),
        "--sign-cert".to_string(),
        sign_cert.to_string(),
    ];
    assert(r@.map_values(|s: String| s@) =~= signer_args_spec(reserve, alg@, sign_cert@));
    r
}

impl SigningError {
    /// The text of the message shown for the error.
    pub open spec fn message_spec(&self) -> Seq<char> {
        match self {
            SigningError::ExternalProcessFailed { stderr } => "External signing process failed: "@
                + stderr@,
            SigningError::ReserveSizeExceeded { required, available } => "Signature of "@
                + decimal_spec(*required as nat) + " bytes exceeds the reserved size of "@
                + decimal_spec(*available as nat) + " bytes"@,
            SigningError::LocalSignerUnavailable => "No signing key available"@,
        }
    }

    /// The message shown for the error.
    pub fn message(&self) -> (r: String)
        ensures
            r@ == self.message_spec(),
    {
        match self {
            SigningError::ExternalProcessFailed { stderr } => {
                let mut s = "External signing process failed: ".to_string();
                s.append(stderr.as_str());
                s
            },
            SigningError::ReserveSizeExceeded { required, available } => {
                let mut s = "Signature of ".to_string();
                push_decimal(&mut s, *required);
                s.append(" bytes exceeds the reserved size of ");
                push_decimal(&mut s, *available);
                s.append(" bytes");
                s
            },
            SigningError::LocalSignerUnavailable => "No signing key available".to_string(),
        }
    }
}

} // verus!

verus! {

/// The signing block of a manifest definition: the algorithm, the paths of the
/// private key and of the certificate chain, and the time-stamp authority.
pub struct SignerConfig {
    pub alg: String,
    pub private_key: Option<String>,
    pub sign_cert: Option<String>,
    pub ta_url: Option<String>,
}

/// A path of the signing block, read from the definition's folder unless absolute.
pub open spec fn config_path_spec(base: Option<String>, p: Seq<char>) -> Seq<char> {
    crate::assemble::resolve_spec(base, p)
}

impl SignerConfig {
    /// The paths of the certificate chain and of the private key that a local signer
    /// needs, read from the definition's folder `base` where they are relative.
    pub fn local_files(&self, base: &Option<String>) -> (r: Result<(String, String), SigningError>)
        ensures
            match (self.sign_cert, self.private_key) {
                (Some(c), Some(k)) => r is Ok && r->Ok_0.0@ == config_path_spec(*base, c@)
                    && r->Ok_0.1@ == config_path_spec(*base, k@),
                _ => r == Err::<(String, String), SigningError>(
                    SigningError::LocalSignerUnavailable,
                ),
            },
    {
        match (&self.sign_cert, &self.private_key) {
            (Some(c), Some(k)) => Ok(
                (
                    crate::assemble::resolve_ingredient_path(base, c.as_str()),
                    crate::assemble::resolve_ingredient_path(base, k.as_str()),
                ),
            ),
            _ => Err(SigningError::LocalSignerUnavailable),
        }
    }

    /// The path of the certificate chain, which an external signer sends along, read
    /// from the definition's folder `base` where it is relative.
    pub fn cert_file(&self, base: &Option<String>) -> (r: Option<String>)
        ensures
            match self.sign_cert {
                Some(c) => r is Some && r->0@ == config_path_spec(*base, c@),
                None => r is None,
            },
    {
        match &self.sign_cert {
            Some(c) => Some(crate::assemble::resolve_ingredient_path(base, c.as_str())),
            None => None,
        }
    }
}

} // verus!
