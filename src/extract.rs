use vstd::prelude::*;
use vstd::string::*;
use crate::graph::{ManifestGraph, ManifestNode, active_root, active_index, walk, is_walk_from};
use crate::paths::{join, join_spec};
use crate::text::{replace_chars, replace_chars_spec, push_decimal, decimal_spec};

verus! {

/// What is found at a path.
#[derive(Clone, Copy, Debug, PartialEq, Eq, Structural)]
pub enum PathKind {
    Missing,
    File,
    Folder,
}

/// Files of trust settings to load before reading an asset.
pub struct Trust {
    pub trust_anchors: Option<String>,
    pub allowed_list: Option<String>,
    pub trust_config: Option<String>,
}

/// Extraction of the known resources of one or more assets into a folder.
pub struct Resources {
    /// Input paths of the assets.
    pub paths: Vec<String>,
    /// Output folder.
    pub output: String,
    /// Write into an output folder that already exists.
    pub force: bool,
    /// Also extract resources of unknown type, as binary files.
    pub unknown: bool,
    pub trust: Trust,
}

/// What the `extract` command does.
pub enum Extract {
    /// Writes the manifest store of an asset, as JSON or as its binary form.
    Manifest { path: String, output: String, binary: bool, force: bool, trust: Trust },
    /// Writes the JSON ingredient of an asset.
    Ingredient { path: String, output: String, force: bool, trust: Trust },
    /// Extracts resources from assets.
    Resources(Resources),
}

/// Media type of a resource whose kind is not known.
pub const UNKNOWN_MEDIA_TYPE: &'static str = "application/octet-stream";

/// Why an extraction does not go ahead.
#[derive(Debug, PartialEq, Eq)]
pub enum ExtractError {
    InputMissing,
    InputNotFile,
    OutputNotFile,
    OutputExists,
    OutputNotFolder,
    OutputFolderExists,
    InputIsFolder,
    NoActiveManifest,
    LabelMissing(String),
    AssetsFailed { failed: usize, total: usize },
}

/// How the output folder of a resource extraction is made ready.
#[derive(Clone, Copy, Debug, PartialEq, Eq, Structural)]
pub enum OutputPrep {
    /// The folder does not exist yet: create it.
    Create,
    /// The folder exists and overwriting was asked for: remove what it holds.
    Clear,
}

/// The work that an `extract` command leads to, once its paths are checked.
#[derive(Debug, PartialEq, Eq)]
pub enum ExtractStep {
    WriteManifest { binary: bool },
    WriteIngredient,
    /// Extract resources, once the output folder is made ready as `prep` says.
    ExtractResources { prep: OutputPrep },
}

/// The check of a single input file and an output file.
pub open spec fn file_check_spec(input: PathKind, output: PathKind, force: bool) -> Option<
    ExtractError,
> {
    if input == PathKind::Missing {
        Some(ExtractError::InputMissing)
    } else if input == PathKind::Folder {
        Some(ExtractError::InputNotFile)
    } else if output == PathKind::Folder {
        Some(ExtractError::OutputNotFile)
    } else if output == PathKind::File && !force {
        Some(ExtractError::OutputExists)
    } else {
        None
    }
}

fn file_check(input: PathKind, output: PathKind, force: bool) -> (r: Option<ExtractError>)
    ensures
        r == file_check_spec(input, output, force),
{
    if input == PathKind::Missing {
        Some(ExtractError::InputMissing)
    } else if input == PathKind::Folder {
        Some(ExtractError::InputNotFile)
    } else if output == PathKind::Folder {
        Some(ExtractError::OutputNotFile)
    } else if output == PathKind::File && !force {
        Some(ExtractError::OutputExists)
    } else {
        None
    }
}

/// The check of a resource extraction's inputs and output folder.
pub open spec fn resources_check_spec(n_paths: nat, output: PathKind, force: bool) -> Result<
    OutputPrep,
    ExtractError,
> {
    if n_paths == 0 {
        Err(ExtractError::InputMissing)
    } else if output == PathKind::Missing {
        Ok(OutputPrep::Create)
    } else if output == PathKind::File {
        Err(ExtractError::OutputNotFolder)
    } else if !force {
        Err(ExtractError::OutputFolderExists)
    } else {
        Ok(OutputPrep::Clear)
    }
}

impl Extract {
    /// The outcome of `execute` on paths of the given kinds.
    pub open spec fn execute_spec(&self, input: PathKind, output: PathKind) -> Result<
        ExtractStep,
        ExtractError,
    > {
        match self {
            Extract::Manifest { binary, force, .. } => match file_check_spec(input, output, *force) {
                Some(e) => Err(e),
                None => Ok(ExtractStep::WriteManifest { binary: *binary }),
            },
            Extract::Ingredient { force, .. } => match file_check_spec(input, output, *force) {
                Some(e) => Err(e),
                None => Ok(ExtractStep::WriteIngredient),
            },
            Extract::Resources(res) => match resources_check_spec(
                res.paths@.len(),
                output,
                res.force,
            ) {
                Ok(c) => Ok(ExtractStep::ExtractResources { prep: c }),
                Err(e) => Err(e),
            },
        }
    }

    /// Checks the paths of the command, given what is found at its input path (for
    /// a manifest or an ingredient) and at its output path, and says what to do.
    pub fn execute(&self, input: PathKind, output: PathKind) -> (r: Result<ExtractStep, ExtractError>)
        ensures
            r == self.execute_spec(input, output),
    {
        match self {
            Extract::Manifest { binary, force, .. } => match file_check(input, output, *force) {
                Some(e) => Err(e),
                None => Ok(ExtractStep::WriteManifest { binary: *binary }),
            },
            Extract::Ingredient { force, .. } => match file_check(input, output, *force) {
                Some(e) => Err(e),
                None => Ok(ExtractStep::WriteIngredient),
            },
            Extract::Resources(res) => match res.execute(output) {
                Ok(c) => Ok(ExtractStep::ExtractResources { prep: c }),
                Err(e) => Err(e),
            },
        }
    }
}

} // verus!

verus! {

/// A resource that an extraction writes: resource `resource` of manifest `manifest`,
/// to file `path`.
pub struct ResourceWrite {
    pub manifest: usize,
    pub resource: usize,
    pub path: String,
}

impl View for ResourceWrite {
    type V = (usize, usize, Seq<char>);

    open spec fn view(&self) -> Self::V {
        (self.manifest, self.resource, self.path@)
    }
}

/// The resources that an extraction writes, and the manifests it walked, in order.
pub struct ExtractionPlan {
    pub order: Vec<usize>,
    pub writes: Vec<ResourceWrite>,
}

/// A name that stays inside the folder it is written to: separators and colons
/// become `_`, and a name of dots alone, or an empty one, gets a `_` in front.
pub open spec fn safe_name_spec(s: Seq<char>) -> Seq<char> {
    let t = replace_chars_spec(s, "/\\:"@, '_');
    if t == ""@ || t == "."@ || t == ".."@ {
        "_"@ + t
    } else {
        t
    }
}

pub fn safe_name(s: &str) -> (r: String)
    ensures
        r@ == safe_name_spec(s@),
{
    let t = replace_chars(s, "/\\:", '_');
    let n = t.unicode_len();
    let mut dots = true;
    let mut i: usize = 0;
    while i < n
        invariant
            n == t@.len(),
            i <= n,
            dots == forall|j: int| 0 <= j < i ==> t@[j] == '.',
        decreases n - i,
    {
        if t.as_str().get_char(i) != '.' {
            dots = false;
        }
        i = i + 1;
    }
    proof {
        reveal_strlit("");
        reveal_strlit(".");
        reveal_strlit("..");
        reveal_strlit("_");
        if t@ == ""@ || t@ == "."@ || t@ == ".."@ {
            assert(dots);
        }
        if dots && n <= 2 {
            if n == 0 {
                assert(t@ =~= ""@);
            } else if n == 1 {
                assert(t@ =~= "."@);
            } else {
                assert(t@ =~= ".."@);
            }
        }
    }
    if dots && n <= 2 {
        let mut r = "_".to_string();
        r.append(t.as_str());
        r
    } else {
        t
    }
}

/// Whether an extraction writes a resource of media type `format`.
pub open spec fn wanted_spec(format: Seq<char>, unknown: bool) -> bool {
    unknown || format != UNKNOWN_MEDIA_TYPE@
}

/// The folder of manifest `m` under `out`.
pub open spec fn manifest_dir_spec(m: ManifestNode, out: Seq<char>) -> Seq<char> {
    let label = match m.label {
        Some(l) => l@,
        None => seq![],
    };
    join_spec(out, safe_name_spec(label))
}

/// The writes for the wanted resources among the first `k` of manifest `i`.
pub open spec fn node_writes_spec(
    g: ManifestGraph,
    i: int,
    out: Seq<char>,
    unknown: bool,
    k: nat,
) -> Seq<(usize, usize, Seq<char>)>
    decreases k,
{
    if k == 0 {
        seq![]
    } else {
        let rest = node_writes_spec(g, i, out, unknown, (k - 1) as nat);
        let m = g.manifests@[i];
        let res = m.resources@[k - 1];
        if wanted_spec(res.format@, unknown) {
            rest.push(
                (
                    i as usize,
                    (k - 1) as usize,
                    join_spec(manifest_dir_spec(m, out), safe_name_spec(res.identifier@)),
                ),
            )
        } else {
            rest
        }
    }
}

/// The writes for the manifests of `order`, manifest by manifest.
pub open spec fn plan_spec(g: ManifestGraph, order: Seq<usize>, out: Seq<char>, unknown: bool) -> Seq<
    (usize, usize, Seq<char>),
>
    decreases order.len(),
{
    if order.len() == 0 {
        seq![]
    } else {
        let i = order.last() as int;
        plan_spec(g, order.drop_last(), out, unknown) + node_writes_spec(
            g,
            i,
            out,
            unknown,
            g.manifests@[i].resources@.len(),
        )
    }
}

fn push_node_writes(
    g: &ManifestGraph,
    i: usize,
    out_dir: &str,
    unknown: bool,
    writes: &mut Vec<ResourceWrite>,
)
    requires
        i < g.manifests@.len(),
    ensures
        final(writes)@.map_values(|w: ResourceWrite| w@) == old(writes)@.map_values(
            |w: ResourceWrite| w@,
        ) + node_writes_spec(*g, i as int, out_dir@, unknown, g.manifests@[i as int].resources@.len()),
{
    let ghost start = writes@.map_values(|w: ResourceWrite| w@);
    let m = &g.manifests[i];
    let label = match &m.label {
        Some(l) => safe_name(l.as_str()),
        None => safe_name(""),
    };
    proof {
        reveal_strlit("");
        if m.label is None {
            assert(""@ =~= Seq::<char>::empty());
        }
    }
    let dir = join(out_dir, label.as_str());
    assert(dir@ == manifest_dir_spec(*m, out_dir@));
    let n = m.resources.len();
    let mut k: usize = 0;
    proof {
        assert(writes@.map_values(|w: ResourceWrite| w@) =~= start + node_writes_spec(
            *g,
            i as int,
            out_dir@,
            unknown,
            0,
        ));
    }
    while k < n
        invariant
            k <= n,
            i < g.manifests@.len(),
            m == &g.manifests@[i as int],
            n == m.resources@.len(),
            dir@ == manifest_dir_spec(*m, out_dir@),
            writes@.map_values(|w: ResourceWrite| w@) =~= start + node_writes_spec(
                *g,
                i as int,
                out_dir@,
                unknown,
                k as nat,
            ),
        decreases n - k,
    {
        let ghost before = writes@;
        let res = &m.resources[k];
        let wanted = unknown || res.format != UNKNOWN_MEDIA_TYPE.to_string();
        if wanted {
            let name = safe_name(res.identifier.as_str());
            let w = ResourceWrite { manifest: i, resource: k, path: join(dir.as_str(), name.as_str()) };
            writes.push(w);
            proof {
                assert(writes@.map_values(|w: ResourceWrite| w@) =~= before.map_values(
                    |w: ResourceWrite| w@,
                ).push(w@));
            }
        }
        proof {
            assert(res == m.resources@[k as int]);
            assert(wanted == wanted_spec(res.format@, unknown));
        }
        k = k + 1;
    }
}

impl ExtractError {
    /// The text of the message shown for the error.
    pub open spec fn message_spec(&self) -> Seq<char> {
        match self {
            ExtractError::InputMissing => "Input path does not exist"@,
            ExtractError::InputNotFile => "Input path must be a file"@,
            ExtractError::OutputNotFile => "Output path must be a file"@,
            ExtractError::OutputExists => "Output path already exists use `--force` to overwrite"@,
            ExtractError::OutputNotFolder => "Output path must be a folder"@,
            ExtractError::OutputFolderExists => "Output path already exists use `--force` to overwrite and clear children"@,
            ExtractError::InputIsFolder => "Input path cannot be a folder when extracting resources"@,
            ExtractError::NoActiveManifest => "No active manifest found"@,
            ExtractError::LabelMissing(l) => "Failed to find manifest with label "@ + l@,
            ExtractError::AssetsFailed { failed, total } => "Failed to extract resources from "@
                + decimal_spec(*failed as nat) + "/"@ + decimal_spec(*total as nat) + " assets"@,
        }
    }

    /// The message shown for the error.
    pub fn message(&self) -> (r: String)
        ensures
            r@ == self.message_spec(),
    {
        match self {
            ExtractError::InputMissing => "Input path does not exist".to_string(),
            ExtractError::InputNotFile => "Input path must be a file".to_string(),
            ExtractError::OutputNotFile => "Output path must be a file".to_string(),
            ExtractError::OutputExists => "Output path already exists use `--force` to overwrite".to_string(),
            ExtractError::OutputNotFolder => "Output path must be a folder".to_string(),
            ExtractError::OutputFolderExists => "Output path already exists use `--force` to overwrite and clear children".to_string(),
            ExtractError::InputIsFolder => "Input path cannot be a folder when extracting resources".to_string(),
            ExtractError::NoActiveManifest => "No active manifest found".to_string(),
            ExtractError::LabelMissing(l) => {
                let mut s = "Failed to find manifest with label ".to_string();
                s.append(l.as_str());
                s
            },
            ExtractError::AssetsFailed { failed, total } => {
                let mut s = "Failed to extract resources from ".to_string();
                push_decimal(&mut s, *failed);
                s.append("/");
                push_decimal(&mut s, *total);
                s.append(" assets");
                s
            },
        }
    }
}

impl Resources {
    /// Checks the inputs and the output folder of the extraction: says whether the
    /// output folder is to be created, or cleared of what it holds.
    pub fn execute(&self, output: PathKind) -> (r: Result<OutputPrep, ExtractError>)
        ensures
            r == resources_check_spec(self.paths@.len(), output, self.force),
    {
        if self.paths.len() == 0 {
            Err(ExtractError::InputMissing)
        } else if output == PathKind::Missing {
            Ok(OutputPrep::Create)
        } else if output == PathKind::File {
            Err(ExtractError::OutputNotFolder)
        } else if !self.force {
            Err(ExtractError::OutputFolderExists)
        } else {
            Ok(OutputPrep::Clear)
        }
    }

    /// Checks one input path: a folder is refused.
    pub fn check_input(&self, input: PathKind) -> (r: Result<(), ExtractError>)
        ensures
            r == (if input == PathKind::Folder {
                Err(ExtractError::InputIsFolder)
            } else {
                Ok(())
            }),
    {
        if input == PathKind::Folder {
            Err(ExtractError::InputIsFolder)
        } else {
            Ok(())
        }
    }

    /// The outcome of the whole batch, once `failed` of its assets have failed: it
    /// fails where any asset failed, and says how many.
    pub fn outcome(&self, failed: usize) -> (r: Result<(), ExtractError>)
        ensures
            r == (if failed > 0 {
                Err(ExtractError::AssetsFailed { failed, total: self.paths@.len() as usize })
            } else {
                Ok(())
            }),
    {
        if failed > 0 {
            Err(ExtractError::AssetsFailed { failed, total: self.paths.len() })
        } else {
            Ok(())
        }
    }

    /// Plans the extraction of one asset's store: walks it depth first from its
    /// active manifest, entering each manifest once, and writes each wanted resource
    /// of each manifest to `<output>/<manifest label>/<resource identifier>`, both
    /// made safe as file names. A store whose active label is missing, or names no
    /// manifest, fails.
    pub fn extract_resources(&self, g: &ManifestGraph) -> (r: Result<ExtractionPlan, ExtractError>)
        ensures
            match g.active_label {
                None => r == Err::<ExtractionPlan, ExtractError>(ExtractError::NoActiveManifest),
                Some(l) => match active_root(*g) {
                    None => r == Err::<ExtractionPlan, ExtractError>(
                        ExtractError::LabelMissing(l),
                    ),
                    Some(root) => r is Ok && is_walk_from(*g, root, r->Ok_0.order@)
                        && r->Ok_0.writes@.map_values(|w: ResourceWrite| w@) == plan_spec(
                        *g,
                        r->Ok_0.order@,
                        self.output@,
                        self.unknown,
                    ),
                },
            },
    {
        let root = match active_index(g) {
            Some(root) => root,
            None => {
                return match &g.active_label {
                    Some(l) => Err(ExtractError::LabelMissing(l.clone())),
                    None => Err(ExtractError::NoActiveManifest),
                };
            },
        };
        let order = walk(g, root).pre;
        let mut writes: Vec<ResourceWrite> = Vec::new();
        let n = order.len();
        let mut p: usize = 0;
        while p < n
            invariant
                p <= n,
                n == order@.len(),
                forall|q: int| 0 <= q < order@.len() ==> order@[q] < g.manifests@.len(),
                writes@.map_values(|w: ResourceWrite| w@) == plan_spec(
                    *g,
                    order@.subrange(0, p as int),
                    self.output@,
                    self.unknown,
                ),
            decreases n - p,
        {
            push_node_writes(g, order[p], self.output.as_str(), self.unknown, &mut writes);
            proof {
                let s = order@.subrange(0, p + 1);
                assert(s.drop_last() =~= order@.subrange(0, p as int));
            }
            p = p + 1;
        }
        assert(order@.subrange(0, n as int) =~= order@);
        Ok(ExtractionPlan { order, writes })
    }
}

} // verus!

verus! {

/// How many entries of `oks` are false.
pub open spec fn count_failed(oks: Seq<bool>) -> nat
    decreases oks.len(),
{
    if oks.len() == 0 {
        0
    } else {
        count_failed(oks.drop_last()) + if oks.last() {
            0nat
        } else {
            1nat
        }
    }
}

/// What a batch met: what was found at each path it looked at, in order, and
/// whether the extraction of each asset it tried succeeded.
pub struct BatchRecord {
    pub kinds: Vec<PathKind>,
    pub extracted: Vec<bool>,
}

impl Resources {
    /// The outcome of a batch run over `n` paths, given what it met: the batch stops
    /// at the first folder and fails with `InputIsFolder`; otherwise every path is
    /// tried, in order, whatever failed before, and the batch fails where any asset
    /// failed, with how many.
    pub open spec fn batch_spec(
        &self,
        kinds: Seq<PathKind>,
        extracted: Seq<bool>,
        r: Result<(), ExtractError>,
    ) -> bool {
        let n = self.paths@.len();
        &&& kinds.len() <= n
        &&& forall|k: int| 0 <= k < extracted.len() ==> kinds[k] != PathKind::Folder
        &&& if kinds.len() > 0 && kinds.last() == PathKind::Folder {
            &&& extracted.len() + 1 == kinds.len()
            &&& r == Err::<(), ExtractError>(ExtractError::InputIsFolder)
        } else {
            &&& kinds.len() == n
            &&& extracted.len() == n
            &&& r == if count_failed(extracted) > 0 {
                Err(
                    ExtractError::AssetsFailed {
                        failed: count_failed(extracted) as usize,
                        total: n as usize,
                    },
                )
            } else {
                Ok(())
            }
        }
    }

    /// Runs the batch of the extraction: for each path in order, `kind_of` tells
    /// what is found there and `extract` extracts the asset, saying whether it
    /// succeeded. A folder stops the batch; a failed asset does not.
    pub fn run_batch<K, E>(&self, kind_of: K, extract: E) -> (r: (
        Result<(), ExtractError>,
        BatchRecord,
    )) where K: Fn(usize) -> PathKind, E: Fn(usize) -> bool
        requires
            forall|i: usize| i < self.paths@.len() ==> kind_of.requires((i,)),
            forall|i: usize| i < self.paths@.len() ==> extract.requires((i,)),
        ensures
            self.batch_spec(r.1.kinds@, r.1.extracted@, r.0),
            forall|k: int|
                0 <= k < r.1.kinds@.len() ==> kind_of.ensures((k as usize,), #[trigger] r.1.kinds@[k]),
            forall|k: int|
                0 <= k < r.1.extracted@.len() ==> extract.ensures(
                    (k as usize,),
                    #[trigger] r.1.extracted@[k],
                ),
    {
        let n = self.paths.len();
        let mut kinds: Vec<PathKind> = Vec::new();
        let mut extracted: Vec<bool> = Vec::new();
        let mut failed: usize = 0;
        let mut k: usize = 0;
        while k < n
            invariant
                n == self.paths@.len(),
                k <= n,
                kinds@.len() == k,
                extracted@.len() == k,
                failed as nat == count_failed(extracted@),
                failed <= k,
                forall|i: usize| i < n ==> kind_of.requires((i,)),
                forall|i: usize| i < n ==> extract.requires((i,)),
                forall|j: int| 0 <= j < k ==> kinds@[j] != PathKind::Folder,
                forall|j: int| 0 <= j < k ==> kind_of.ensures((j as usize,), #[trigger] kinds@[j]),
                forall|j: int| 0 <= j < k ==> extract.ensures((j as usize,), #[trigger] extracted@[j]),
            decreases n - k,
        {
            let kind = kind_of(k);
            kinds.push(kind);
            if kind == PathKind::Folder {
                let rec = BatchRecord { kinds, extracted };
                return (Err(ExtractError::InputIsFolder), rec);
            }
            let ok = extract(k);
            let ghost before = extracted@;
            extracted.push(ok);
            proof {
                assert(extracted@.drop_last() =~= before);
            }
            if !ok {
                failed = failed + 1;
            }
            k = k + 1;
        }
        let r = self.outcome(failed);
        (r, BatchRecord { kinds, extracted })
    }
}

} // verus!
