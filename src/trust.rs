use vstd::prelude::*;
use vstd::string::*;
use crate::text::digit_spec;

verus! {

/// A hexadecimal digit, in lower case.
pub open spec fn hex_digit_spec(d: nat) -> char {
    if d < 10 {
        digit_spec(d)
    } else if d == 10 {
        'a'
    } else if d == 11 {
        'b'
    } else if d == 12 {
        'c'
    } else if d == 13 {
        'd'
    } else if d == 14 {
        'e'
    } else {
        'f'
    }
}

/// A character as it stands inside a JSON string: `"` and `\` escaped, backspace,
/// tab, line feed, form feed and carriage return by their short escapes, any other
/// control character below U+0020 as `\u00` and two hexadecimal digits, every other
/// character as it is.
pub open spec fn json_escape_char_spec(c: char) -> Seq<char> {
    if c == '"' {
        seq!['\\', '"']
    } else if c == '\\' {
        seq!['\\', '\\']
    } else if c == '\u{8}' {
        seq!['\\', 'b']
    } else if c == '\t' {
        seq!['\\', 't']
    } else if c == '\n' {
        seq!['\\', 'n']
    } else if c == '\u{c}' {
        seq!['\\', 'f']
    } else if c == '\r' {
        seq!['\\', 'r']
    } else if (c as u32) < 0x20 {
        seq![
            '\\',
            'u',
            '0',
            '0',
            hex_digit_spec((c as u32 / 16) as nat),
            hex_digit_spec((c as u32 % 16) as nat),
        ]
    } else {
        seq![c]
    }
}

/// The characters of `s`, each as it stands inside a JSON string.
pub open spec fn json_escaped_spec(s: Seq<char>) -> Seq<char>
    decreases s.len(),
{
    if s.len() == 0 {
        seq![]
    } else {
        json_escaped_spec(s.drop_last()) + json_escape_char_spec(s.last())
    }
}

/// The JSON string literal that holds a text: its escaped characters between quotes.
pub open spec fn json_string_of(s: Seq<char>) -> Seq<char> {
    seq!['"'] + json_escaped_spec(s) + seq!['"']
}

/// Relies on serde_json's Value::String and its Display: the text written as a
/// JSON string, quoted and escaped.
#[verifier::external_body]
fn json_string(s: &str) -> (r: String)
    ensures
        r@ == json_string_of(s@),
{
    serde_json::Value::String(s.to_string()).to_string()
}

/// The verification settings of one invocation. Each trust input is the text read
/// from its file, where one was given.
pub struct TrustConfig {
    /// Trust anchors, PEM certificates.
    pub trust_anchors: Option<String>,
    /// Signing certificates trusted without a chain, PEM.
    pub allowed_list: Option<String>,
    /// Accepted extended key usages, one OID per line.
    pub trust_config: Option<String>,
    /// Validate what was just signed before reporting it.
    pub verify_after_sign: bool,
}

/// The settings fragment that sets `key` of the trust section to the JSON string `value`.
pub open spec fn trust_fragment_spec(key: Seq<char>, value: Seq<char>) -> Seq<char> {
    "{\"trust\": { \""@ + key + "\": "@ + json_string_of(value) + " } }"@
}

/// The fragment that turns trust verification on or off.
pub open spec fn verify_trust_spec(on: bool) -> Seq<char> {
    if on {
        "{\"verify\": { \"verify_trust\": true} }"@
    } else {
        "{\"verify\": { \"verify_trust\": false} }"@
    }
}

/// The fragment that turns validation after signing on or off.
pub open spec fn verify_after_sign_spec(on: bool) -> Seq<char> {
    if on {
        "{\"verify\": { \"verify_after_sign\": true } }"@
    } else {
        "{\"verify\": { \"verify_after_sign\": false } }"@
    }
}

/// The fragment that clears `key` of the trust section.
pub open spec fn clear_fragment_spec(key: Seq<char>) -> Seq<char> {
    "{\"trust\": { \""@ + key + "\": "@ + "null } }"@
}

/// The fragment for one trust input: it sets the input where it is given and
/// clears it where it is absent.
pub open spec fn optional_fragment_spec(key: Seq<char>, value: Option<String>) -> Seq<char> {
    match value {
        Some(v) => trust_fragment_spec(key, v@),
        None => clear_fragment_spec(key),
    }
}

impl TrustConfig {
    /// Whether any trust input is given.
    pub open spec fn trust_enabled(&self) -> bool {
        self.trust_anchors is Some || self.allowed_list is Some || self.trust_config is Some
    }

    /// Every settings fragment of the configuration, in the order they are loaded.
    pub open spec fn fragments_spec(&self) -> Seq<Seq<char>> {
        seq![
            optional_fragment_spec("trust_anchors"@, self.trust_anchors),
            optional_fragment_spec("allowed_list"@, self.allowed_list),
            optional_fragment_spec("trust_config"@, self.trust_config),
            verify_trust_spec(self.trust_enabled()),
            verify_after_sign_spec(self.verify_after_sign),
        ]
    }

    /// The settings to load, in order, so that the whole verification state is
    /// written anew: each of the three trust inputs, set where it is given and
    /// cleared where it is absent, then trust verification switched on where any was
    /// given and off where none was, then validation after signing.
    pub fn settings(&self) -> (r: Vec<String>)
        ensures
            r@.map_values(|s: String| s@) == self.fragments_spec(),
    {
        let mut r: Vec<String> = Vec::new();
        let ghost v0 = r@.map_values(|s: String| s@);
        push_fragment(&mut r, "trust_anchors", &self.trust_anchors);
        push_fragment(&mut r, "allowed_list", &self.allowed_list);
        push_fragment(&mut r, "trust_config", &self.trust_config);
        let enabled = self.trust_anchors.is_some() || self.allowed_list.is_some()
            || self.trust_config.is_some();
        let ghost v1 = r@;
        let t = if enabled {
            "{\"verify\": { \"verify_trust\": true} }".to_string()
        } else {
            "{\"verify\": { \"verify_trust\": false} }".to_string()
        };
        r.push(t);
        let a = if self.verify_after_sign {
            "{\"verify\": { \"verify_after_sign\": true } }".to_string()
        } else {
            "{\"verify\": { \"verify_after_sign\": false } }".to_string()
        };
        r.push(a);
        proof {
            assert(r@ == v1.push(t).push(a));
            assert(r@.map_values(|s: String| s@) =~= v1.map_values(|s: String| s@).push(t@).push(
                a@,
            ));
            assert(v0 =~= Seq::<Seq<char>>::empty());
            assert(r@.map_values(|s: String| s@) =~= self.fragments_spec());
        }
        r
    }
}

fn push_fragment(r: &mut Vec<String>, key: &str, value: &Option<String>)
    ensures
        final(r)@.map_values(|s: String| s@) == old(r)@.map_values(|s: String| s@).push(
            optional_fragment_spec(key@, *value),
        ),
{
    let mut f = "{\"trust\": { \"".to_string();
    f.append(key);
    f.append("\": ");
    match value {
        Some(v) => {
            let q = json_string(v.as_str());
            f.append(q.as_str());
            f.append(" } }");
        },
        None => {
            f.append("null } }");
        },
    }
    let ghost before = r@;
    r.push(f);
    proof {
        assert(r@.map_values(|s: String| s@) =~= before.map_values(|s: String| s@).push(f@));
        match value {
            Some(v) => assert(f@ =~= trust_fragment_spec(key@, v@)),
            None => assert(f@ =~= clear_fragment_spec(key@)),
        }
    }
}

/// Configuration carries no state over from an earlier invocation: the settings of
/// every configuration write each trust input (set or cleared), the trust flag and
/// the flag for validation after signing, and depend on the configuration alone;
/// without trust inputs, all three inputs are cleared and trust verification is
/// switched off, whatever an earlier configuration held.
pub proof fn lemma_settings_rewrite_everything(earlier: TrustConfig, now: TrustConfig)
    ensures
        now.fragments_spec().len() == 5,
        now.fragments_spec()[0] == optional_fragment_spec("trust_anchors"@, now.trust_anchors),
        now.fragments_spec()[1] == optional_fragment_spec("allowed_list"@, now.allowed_list),
        now.fragments_spec()[2] == optional_fragment_spec("trust_config"@, now.trust_config),
        now.fragments_spec()[3] == verify_trust_spec(now.trust_enabled()),
        now.fragments_spec()[4] == verify_after_sign_spec(now.verify_after_sign),
        now.trust_anchors is None && now.allowed_list is None && now.trust_config is None
            ==> now.fragments_spec() == seq![
            clear_fragment_spec("trust_anchors"@),
            clear_fragment_spec("allowed_list"@),
            clear_fragment_spec("trust_config"@),
            verify_trust_spec(false),
            verify_after_sign_spec(now.verify_after_sign),
        ],
        earlier.trust_anchors == now.trust_anchors && earlier.allowed_list == now.allowed_list
            && earlier.trust_config == now.trust_config && earlier.verify_after_sign
            == now.verify_after_sign ==> earlier.fragments_spec() == now.fragments_spec(),
{
    if now.trust_anchors is None && now.allowed_list is None && now.trust_config is None {
        assert(now.fragments_spec() =~= seq![
            clear_fragment_spec("trust_anchors"@),
            clear_fragment_spec("allowed_list"@),
            clear_fragment_spec("trust_config"@),
            verify_trust_spec(false),
            verify_after_sign_spec(now.verify_after_sign),
        ]);
    }
}

} // verus!
