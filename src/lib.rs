// Composition, signing and extraction of provenance manifests bound to media
// assets.
//
// - `assemble`: merges a manifest declaration with its ingredients, its parent
//   and its placement into a manifest ready to be signed.
// - `signing`: reserve-size budgeting and the external signing process.
// - `trust`: the verification settings of an invocation.
// - `graph`: a manifest store as manifests linked by label, and its walk.
// - `extract`: the `extract` command and the resource extraction plan.
// - `report`: thumbnails and the HTML tree of a store's report.
// - `sdk`: failures of the manifest SDK, as the tool reports them.
// - `paths`, `text`: paths and characters.
use vstd::prelude::*;

pub mod assemble;
pub mod extract;
pub mod graph;
pub mod paths;
pub mod report;
pub mod sdk;
pub mod signing;
pub mod text;
pub mod trust;

verus! {

} // verus!
