use vstd::prelude::*;
use vstd::string::*;
use crate::extract::PathKind;
use crate::paths::{
    is_absolute_spec, join, join_spec, is_absolute, extension_of, file_name_of, parent_of,
    path_extension, path_file_name, path_parent, ext_normal, ext_normal_spec,
};
use crate::text::{starts_with, starts_with_spec};

verus! {

/// Prefix of the claim generator that the manifest library writes by default.
pub const DEFAULT_GENERATOR_PREFIX: &'static str = "c2pa/";

/// File that describes an ingredient kept as a folder.
pub const INGREDIENT_DESCRIPTOR: &'static str = "ingredient.json";

/// The claim generator of an assembled manifest: the tool's own name replaces the
/// library's default, and follows any other generator after a space.
pub open spec fn generator_spec(existing: Seq<char>, tool: Seq<char>) -> Seq<char> {
    if starts_with_spec(existing, DEFAULT_GENERATOR_PREFIX@) {
        tool
    } else {
        existing + " "@ + tool
    }
}

/// Records the tool in the claim generator of a declaration.
pub fn claim_generator(existing: &str, tool: &str) -> (r: String)
    ensures
        r@ == generator_spec(existing@, tool@),
{
    if starts_with(existing, DEFAULT_GENERATOR_PREFIX) {
        tool.to_string()
    } else {
        let mut r = existing.to_string();
        r.append(" ");
        r.append(tool);
        r
    }
}

/// `t` occurs in `s` at position `i`.
pub open spec fn occurs_at(s: Seq<char>, t: Seq<char>, i: int) -> bool {
    0 <= i && i + t.len() <= s.len() && s.subrange(i, i + t.len()) == t
}

/// The generator that assembly records names the tool exactly once, at its end,
/// where the tool's name holds no space and the declaration's own generator is the
/// library's default or does not name the tool already.
pub proof fn lemma_generator_names_tool_once(existing: Seq<char>, tool: Seq<char>)
    requires
        tool.len() > 0,
        !tool.contains(' '),
        starts_with_spec(existing, DEFAULT_GENERATOR_PREFIX@) || forall|j: int|
            !#[trigger] occurs_at(existing, tool, j),
    ensures
        occurs_at(
            generator_spec(existing, tool),
            tool,
            generator_spec(existing, tool).len() - tool.len(),
        ),
        forall|j: int|
            #[trigger] occurs_at(generator_spec(existing, tool), tool, j) ==> j == generator_spec(
                existing,
                tool,
            ).len() - tool.len(),
{
    let r = generator_spec(existing, tool);
    reveal_strlit(" ");
    if starts_with_spec(existing, DEFAULT_GENERATOR_PREFIX@) {
        assert(r.subrange(0, tool.len() as int) =~= tool);
    } else {
        let e = existing.len() as int;
        assert(r.subrange(e + 1, r.len() as int) =~= tool);
        assert forall|j: int| #[trigger] occurs_at(r, tool, j) implies j == r.len() - tool.len() by {
            if j + tool.len() <= e {
                assert(existing.subrange(j, j + tool.len()) =~= r.subrange(j, j + tool.len()));
                assert(occurs_at(existing, tool, j));
            } else if j <= e {
                assert(r[e] == ' ');
                assert(r.subrange(j, j + tool.len())[e - j] == r[e]);
                assert(tool[e - j] == ' ');
                assert(tool.contains(' '));
            }
        }
    }
}

/// An ingredient path of a declaration, read from the declaration's folder unless
/// it is absolute.
pub open spec fn resolve_spec(base: Option<String>, p: Seq<char>) -> Seq<char> {
    match base {
        Some(b) => if is_absolute_spec(p) {
            p
        } else {
            join_spec(b@, p)
        },
        None => p,
    }
}

pub fn resolve_ingredient_path(base: &Option<String>, p: &str) -> (r: String)
    ensures
        r@ == resolve_spec(*base, p@),
{
    match base {
        Some(b) => if is_absolute(p) {
            p.to_string()
        } else {
            join(b.as_str(), p)
        },
        None => p.to_string(),
    }
}

/// Where an ingredient of the manifest comes from.
pub enum IngredientOrigin {
    /// The ingredient at this position in the declaration itself.
    Declared { index: usize },
    /// A JSON descriptor; its relative resources are read from `base`.
    Descriptor { file: String, base: Option<String> },
    /// An asset file, whose ingredient the manifest library derives from it.
    Asset { file: String },
}

/// An ingredient of the manifest and whether it is the parent.
pub struct IngredientEntry {
    pub origin: IngredientOrigin,
    pub is_parent: bool,
}

/// The file that an ingredient path is loaded from: the descriptor inside a folder,
/// or the path itself.
pub open spec fn ingredient_file_spec(path: Seq<char>, is_dir: bool) -> Seq<char> {
    if is_dir {
        join_spec(path, INGREDIENT_DESCRIPTOR@)
    } else {
        path
    }
}

/// An optional text, as characters.
pub open spec fn opt_view(o: Option<String>) -> Option<Seq<char>> {
    match o {
        Some(s) => Some(s@),
        None => None,
    }
}

/// How an ingredient path is loaded: a `.json` file (or the descriptor of a folder)
/// is an ingredient descriptor whose resources are read from its own folder; any
/// other file is an asset.
pub open spec fn ingredient_origin_spec(path: Seq<char>, is_dir: bool, r: IngredientOrigin) -> bool {
    let f = ingredient_file_spec(path, is_dir);
    if extension_of(f) == Some("json"@) {
        match r {
            IngredientOrigin::Descriptor { file, base } => file@ == f && opt_view(base) == parent_of(f),
            _ => false,
        }
    } else {
        match r {
            IngredientOrigin::Asset { file } => file@ == f,
            _ => false,
        }
    }
}

/// How to load the ingredient file `file`, given its extension and its folder: a
/// descriptor, read with its resources from `folder`, where the extension is
/// `json`; else an asset.
pub fn ingredient_origin(file: String, extension: Option<String>, folder: Option<String>) -> (r:
    IngredientOrigin)
    ensures
        opt_view(extension) == Some("json"@) ==> r == (IngredientOrigin::Descriptor {
            file,
            base: folder,
        }),
        opt_view(extension) != Some("json"@) ==> r == (IngredientOrigin::Asset { file }),
{
    let is_json = match extension {
        Some(e) => e == "json".to_string(),
        None => false,
    };
    if is_json {
        IngredientOrigin::Descriptor { file, base: folder }
    } else {
        IngredientOrigin::Asset { file }
    }
}

/// Decides how to load the ingredient at `path`, given whether it is a folder.
pub fn load_ingredient(path: &str, is_dir: bool) -> (r: IngredientOrigin)
    ensures
        ingredient_origin_spec(path@, is_dir, r),
{
    let file = if is_dir {
        join(path, INGREDIENT_DESCRIPTOR)
    } else {
        path.to_string()
    };
    let extension = path_extension(file.as_str());
    let folder = path_parent(file.as_str());
    ingredient_origin(file, extension, folder)
}

/// For every ingredient path, the resources of an ingredient loaded from a
/// descriptor are read from the descriptor's own folder, not from the folder of
/// the declaration that named it.
pub proof fn lemma_descriptor_base_is_its_folder(
    decl_base: Option<String>,
    path: Seq<char>,
    is_dir: bool,
    origin: IngredientOrigin,
)
    requires
        ingredient_origin_spec(resolve_spec(decl_base, path), is_dir, origin),
        origin is Descriptor,
    ensures
        opt_view(origin->Descriptor_base) == parent_of(
            ingredient_file_spec(resolve_spec(decl_base, path), is_dir),
        ),
        origin->Descriptor_file@ == ingredient_file_spec(resolve_spec(decl_base, path), is_dir),
{
}

} // verus!

verus! {

/// Where the signed manifest is put.
#[derive(Debug, PartialEq, Eq)]
pub enum Placement {
    /// Embedded in the output asset.
    Embedded,
    /// In a `.c2pa` file beside the output asset, not embedded.
    Sidecar,
    /// Only at a remote URL, which the asset refers to.
    Remote { url: String },
    /// Embedded, and also referred to at a remote URL.
    EmbeddedWithRemoteRef { url: String },
}

/// The placement asked for: a remote URL is the only copy unless a sidecar is asked
/// for too, in which case the manifest is embedded with a reference to it.
pub open spec fn placement_spec(remote: Option<String>, sidecar: bool) -> Placement {
    match remote {
        Some(url) => if sidecar {
            Placement::EmbeddedWithRemoteRef { url }
        } else {
            Placement::Remote { url }
        },
        None => if sidecar {
            Placement::Sidecar
        } else {
            Placement::Embedded
        },
    }
}

pub fn placement(remote: Option<String>, sidecar: bool) -> (r: Placement)
    ensures
        r == placement_spec(remote, sidecar),
{
    match remote {
        Some(url) => if sidecar {
            Placement::EmbeddedWithRemoteRef { url }
        } else {
            Placement::Remote { url }
        },
        None => if sidecar {
            Placement::Sidecar
        } else {
            Placement::Embedded
        },
    }
}

/// Why a manifest cannot be assembled or written.
#[derive(Debug, PartialEq, Eq)]
pub enum AssembleError {
    /// A parent was given, but the manifest already has one.
    ParentExists,
    /// The output's type differs from the source's.
    OutputTypeMismatch,
    /// The output exists and overwriting was not asked for.
    OutputExists,
    MissingFileName,
    MissingExtension,
    /// Parent, sidecar or remote was asked for without a manifest definition.
    DefinitionRequired,
    /// A report folder was asked for, but the output is a file.
    OutputNotFolder,
}

/// Some ingredient of `s` is the parent.
pub open spec fn has_parent(s: Seq<IngredientEntry>) -> bool {
    exists|i: int| 0 <= i < s.len() && (#[trigger] s[i]).is_parent
}

/// How many ingredients of `s` are the parent.
pub open spec fn count_parents(s: Seq<IngredientEntry>) -> nat
    decreases s.len(),
{
    if s.len() == 0 {
        0
    } else {
        count_parents(s.drop_last()) + if s.last().is_parent {
            1nat
        } else {
            0nat
        }
    }
}

proof fn lemma_no_parent_count(s: Seq<IngredientEntry>)
    requires
        !has_parent(s),
    ensures
        count_parents(s) == 0,
    decreases s.len(),
{
    if s.len() > 0 {
        assert(!has_parent(s.drop_last())) by {
            if has_parent(s.drop_last()) {
                let i = choose|i: int| 0 <= i < s.len() - 1 && (#[trigger] s.drop_last()[i]).is_parent;
                assert(s[i] == s.drop_last()[i]);
            }
        }
        lemma_no_parent_count(s.drop_last());
        assert(!s[s.len() - 1].is_parent);
    }
}

proof fn lemma_count_front(e: IngredientEntry, s: Seq<IngredientEntry>)
    ensures
        count_parents(seq![e] + s) == count_parents(s) + if e.is_parent {
            1nat
        } else {
            0nat
        },
    decreases s.len(),
{
    if s.len() > 0 {
        assert((seq![e] + s).drop_last() =~= seq![e] + s.drop_last());
        assert((seq![e] + s).last() == s.last());
        lemma_count_front(e, s.drop_last());
    } else {
        assert((seq![e] + s).drop_last() =~= Seq::<IngredientEntry>::empty());
        assert((seq![e] + s).last() == e);
        assert(count_parents(Seq::<IngredientEntry>::empty()) == 0);
    }
}

/// The ingredients once the parent is settled: an explicit parent goes first, and
/// fails where an ingredient already is the parent; without one, a source asset
/// that carries a manifest becomes the parent where no ingredient is.
pub open spec fn with_parent_spec(
    ings: Seq<IngredientEntry>,
    explicit: Option<IngredientOrigin>,
    source: String,
    source_has_manifest: bool,
) -> Result<Seq<IngredientEntry>, AssembleError> {
    match explicit {
        Some(o) => if has_parent(ings) {
            Err(AssembleError::ParentExists)
        } else {
            Ok(seq![IngredientEntry { origin: o, is_parent: true }] + ings)
        },
        None => if !has_parent(ings) && source_has_manifest {
            Ok(
                seq![IngredientEntry { origin: IngredientOrigin::Asset { file: source }, is_parent: true }]
                    + ings,
            )
        } else {
            Ok(ings)
        },
    }
}

/// An explicit parent always wins over a source asset that carries a manifest, and
/// the manifest then has exactly one parent, whatever the source carries, so that
/// assembling again with the same parent gives the same ingredients.
pub proof fn lemma_explicit_parent_wins(
    ings: Seq<IngredientEntry>,
    parent: IngredientOrigin,
    source: String,
    source_has_manifest: bool,
)
    requires
        !has_parent(ings),
    ensures
        with_parent_spec(ings, Some(parent), source, source_has_manifest) is Ok,
        count_parents(with_parent_spec(ings, Some(parent), source, source_has_manifest)->Ok_0) == 1,
        with_parent_spec(ings, Some(parent), source, source_has_manifest)->Ok_0[0].origin == parent,
        with_parent_spec(ings, Some(parent), source, source_has_manifest) == with_parent_spec(
            ings,
            Some(parent),
            source,
            !source_has_manifest,
        ),
{
    lemma_no_parent_count(ings);
    lemma_count_front(IngredientEntry { origin: parent, is_parent: true }, ings);
}

/// Finds whether an ingredient is the parent.
fn find_parent(ings: &Vec<IngredientEntry>) -> (r: bool)
    ensures
        r == has_parent(ings@),
{
    let mut i: usize = 0;
    while i < ings.len()
        invariant
            i <= ings@.len(),
            forall|j: int| 0 <= j < i ==> !ings@[j].is_parent,
        decreases ings@.len() - i,
    {
        if ings[i].is_parent {
            return true;
        }
        i = i + 1;
    }
    false
}

/// A manifest assembled from its declaration, ready to be signed.
pub struct ManifestPlan {
    pub claim_generator: String,
    /// The folder that the declaration's relative resources are read from.
    pub base_path: Option<String>,
    pub ingredients: Vec<IngredientEntry>,
    pub placement: Placement,
}

/// What the assembly of a manifest starts from. `ingredients` holds, in order, the
/// ingredients that the declaration itself holds, then those loaded from its
/// ingredient paths (see `load_ingredient`), each marked where it is a parent.
pub struct Declaration {
    pub claim_generator: String,
    pub base_path: Option<String>,
    pub ingredients: Vec<IngredientEntry>,
}

/// The outcome of `assemble`.
pub open spec fn assemble_spec(
    decl: Declaration,
    tool: Seq<char>,
    parent: Option<IngredientOrigin>,
    source: String,
    source_has_manifest: bool,
    remote: Option<String>,
    sidecar: bool,
    r: Result<ManifestPlan, AssembleError>,
) -> bool {
    match with_parent_spec(decl.ingredients@, parent, source, source_has_manifest) {
        Err(e) => r == Err::<ManifestPlan, AssembleError>(e),
        Ok(ings) => match r {
            Ok(plan) => plan.claim_generator@ == generator_spec(decl.claim_generator@, tool)
                && plan.base_path == decl.base_path && plan.ingredients@ == ings && plan.placement
                == placement_spec(remote, sidecar),
            Err(_) => false,
        },
    }
}

/// Assembles a manifest: records the tool in the claim generator, keeps the
/// declaration's base folder and its ingredients in order, settles the parent (an
/// explicit `parent` first; else the source asset at `source`, where it carries a
/// manifest and no ingredient is the parent), and chooses the placement.
pub fn assemble(
    decl: Declaration,
    tool: &str,
    parent: Option<IngredientOrigin>,
    source: &String,
    source_has_manifest: bool,
    remote: Option<String>,
    sidecar: bool,
) -> (r: Result<ManifestPlan, AssembleError>)
    ensures
        assemble_spec(decl, tool@, parent, *source, source_has_manifest, remote, sidecar, r),
{
    let ghost d = decl;
    let claim_generator = claim_generator(decl.claim_generator.as_str(), tool);
    let mut ingredients = decl.ingredients;
    let found = find_parent(&ingredients);
    match parent {
        Some(o) => {
            if found {
                return Err(AssembleError::ParentExists);
            }
            ingredients.insert(0, IngredientEntry { origin: o, is_parent: true });
            assert(ingredients@ =~= seq![IngredientEntry { origin: o, is_parent: true }]
                + d.ingredients@);
        },
        None => {
            if !found && source_has_manifest {
                let e = IngredientEntry {
                    origin: IngredientOrigin::Asset { file: source.clone() },
                    is_parent: true,
                };
                ingredients.insert(0, e);
                assert(ingredients@ =~= seq![e] + d.ingredients@);
            }
        },
    }
    Ok(
        ManifestPlan {
            claim_generator,
            base_path: decl.base_path,
            ingredients,
            placement: placement(remote, sidecar),
        },
    )
}

} // verus!

verus! {

/// The check of the output file of a signing run.
pub open spec fn embed_output_spec(
    output: Seq<char>,
    source: Seq<char>,
    exists: bool,
    force: bool,
) -> Result<(), AssembleError> {
    if ext_normal_spec(output) != ext_normal_spec(source) {
        Err(AssembleError::OutputTypeMismatch)
    } else if exists && !force {
        Err(AssembleError::OutputExists)
    } else if file_name_of(output) is None {
        Err(AssembleError::MissingFileName)
    } else if extension_of(output) is None {
        Err(AssembleError::MissingExtension)
    } else {
        Ok(())
    }
}

/// The check of an output file, given the normal extensions of output and source
/// (see `ext_normal`) and whether the output has a file name and an extension.
pub open spec fn output_check_spec(
    output_type: Seq<char>,
    source_type: Seq<char>,
    exists: bool,
    force: bool,
    has_file_name: bool,
    has_extension: bool,
) -> Result<(), AssembleError> {
    if output_type != source_type {
        Err(AssembleError::OutputTypeMismatch)
    } else if exists && !force {
        Err(AssembleError::OutputExists)
    } else if !has_file_name {
        Err(AssembleError::MissingFileName)
    } else if !has_extension {
        Err(AssembleError::MissingExtension)
    } else {
        Ok(())
    }
}

pub fn output_check(
    output_type: &String,
    source_type: &String,
    exists: bool,
    force: bool,
    has_file_name: bool,
    has_extension: bool,
) -> (r: Result<(), AssembleError>)
    ensures
        r == output_check_spec(
            output_type@,
            source_type@,
            exists,
            force,
            has_file_name,
            has_extension,
        ),
{
    if *output_type != *source_type {
        Err(AssembleError::OutputTypeMismatch)
    } else if exists && !force {
        Err(AssembleError::OutputExists)
    } else if !has_file_name {
        Err(AssembleError::MissingFileName)
    } else if !has_extension {
        Err(AssembleError::MissingExtension)
    } else {
        Ok(())
    }
}

/// Checks the output file of a signing run against its source: same type, free or
/// to be overwritten, with a file name and an extension.
pub fn check_embed_output(output: &str, source: &str, exists: bool, force: bool) -> (r: Result<
    (),
    AssembleError,
>)
    ensures
        r == embed_output_spec(output@, source@, exists, force),
{
    let a = ext_normal(output);
    let b = ext_normal(source);
    let has_file_name = path_file_name(output).is_some();
    let has_extension = path_extension(output).is_some();
    output_check(&a, &b, exists, force, has_file_name, has_extension)
}

/// The check of the output folder of a report: says whether a folder already there
/// is to be removed first.
pub open spec fn report_output_spec(output: Seq<char>, kind: PathKind, force: bool) -> Result<
    bool,
    AssembleError,
> {
    if kind == PathKind::File || extension_of(output) is Some {
        Err(AssembleError::OutputNotFolder)
    } else if kind == PathKind::Folder {
        if force {
            Ok(true)
        } else {
            Err(AssembleError::OutputExists)
        }
    } else {
        Ok(false)
    }
}

/// Checks the output folder of a report, given what is found there.
pub fn check_report_output(output: &str, kind: PathKind, force: bool) -> (r: Result<
    bool,
    AssembleError,
>)
    ensures
        r == report_output_spec(output@, kind, force),
{
    if kind == PathKind::File || path_extension(output).is_some() {
        Err(AssembleError::OutputNotFolder)
    } else if kind == PathKind::Folder {
        if force {
            Ok(true)
        } else {
            Err(AssembleError::OutputExists)
        }
    } else {
        Ok(false)
    }
}

/// Parent, sidecar and remote placement need a manifest definition.
pub fn check_definition(has_definition: bool, parent: bool, sidecar: bool, remote: bool) -> (r:
    Result<(), AssembleError>)
    ensures
        r == (if !has_definition && (parent || sidecar || remote) {
            Err(AssembleError::DefinitionRequired)
        } else {
            Ok(())
        }),
{
    if !has_definition && (parent || sidecar || remote) {
        Err(AssembleError::DefinitionRequired)
    } else {
        Ok(())
    }
}

impl AssembleError {
    /// The text of the message shown for the error.
    pub open spec fn message_spec(&self) -> Seq<char> {
        match self {
            AssembleError::ParentExists => "Parent already added"@,
            AssembleError::OutputTypeMismatch => "Output type must match source type"@,
            AssembleError::OutputExists => "Output already exists, use -f/force to force write"@,
            AssembleError::MissingFileName => "Missing filename on output"@,
            AssembleError::MissingExtension => "Missing extension output"@,
            AssembleError::DefinitionRequired => "manifest definition required with these options or flags"@,
            AssembleError::OutputNotFolder => "Output must be a folder for this option."@,
        }
    }

    /// The message shown for the error.
    pub fn message(&self) -> (r: String)
        ensures
            r@ == self.message_spec(),
    {
        match self {
            AssembleError::ParentExists => "Parent already added".to_string(),
            AssembleError::OutputTypeMismatch => "Output type must match source type".to_string(),
            AssembleError::OutputExists => "Output already exists, use -f/force to force write".to_string(),
            AssembleError::MissingFileName => "Missing filename on output".to_string(),
            AssembleError::MissingExtension => "Missing extension output".to_string(),
            AssembleError::DefinitionRequired => "manifest definition required with these options or flags".to_string(),
            AssembleError::OutputNotFolder => "Output must be a folder for this option.".to_string(),
        }
    }
}

} // verus!
