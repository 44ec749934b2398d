//! Classification of command-line paths and related small decisions.
//!
//! Every argument path is first made absolute against the working
//! directory, then classified by what the filesystem says of it: a file
//! named like a build manifest is a manifest to expand; another file is a
//! markdown or a source item by its name; a directory stands for the
//! manifest candidate next to it, present or missing.

use vstd::prelude::*;
use vstd::string::*;

use crate::pathing::{
    ends_with, file_name, join_path, parent_dir, spec_ends_with, spec_file_name, spec_is_absolute,
    spec_join, spec_parent, is_absolute,
};
use crate::resolve::names_view;

verus! {

/// The execution mode asked for on the command line. Unsupervised fixing
/// is not implemented and must fail fast.
#[derive(Debug, Clone, Copy, PartialEq, Eq, Structural)]
pub enum Mode {
    Check,
    Fix,
    Interactive,
}

/// Whether a mode can be run at all.
pub fn mode_supported(mode: &Mode) -> (r: bool)
    ensures
        r == !(mode is Fix),
{
    match mode {
        Mode::Fix => false,
        _ => true,
    }
}

/// What the filesystem says an argument path is.
#[derive(Debug, Clone, Copy, PartialEq, Eq, Structural)]
pub enum DiskKind {
    File,
    Dir,
    Missing,
}

/// The classification of one argument path.
#[derive(Debug, Clone, PartialEq, Eq)]
pub enum Extraction {
    /// A build manifest to expand into its products.
    Manifest(String),
    /// A path that does not exist: warned about, then dropped.
    Missing(String),
    Source(String),
    Markdown(String),
}

pub enum ExtractionView {
    Manifest(Seq<char>),
    Missing(Seq<char>),
    Source(Seq<char>),
    Markdown(Seq<char>),
}

impl View for Extraction {
    type V = ExtractionView;

    open spec fn view(&self) -> ExtractionView {
        match self {
            Extraction::Manifest(p) => ExtractionView::Manifest(p@),
            Extraction::Missing(p) => ExtractionView::Missing(p@),
            Extraction::Source(p) => ExtractionView::Source(p@),
            Extraction::Markdown(p) => ExtractionView::Markdown(p@),
        }
    }
}

/// The manifest candidate standing next to a path: its last component
/// replaced by the manifest file name.
pub open spec fn spec_manifest_sibling(path: Seq<char>) -> Seq<char> {
    spec_join(spec_parent(path), "Cargo.toml"@)
}

pub fn manifest_sibling(path: &str) -> (r: String)
    ensures
        r@ == spec_manifest_sibling(path@),
{
    let base = parent_dir(path);
    join_path(base.as_str(), "Cargo.toml")
}

/// How one argument path is classified, given what the filesystem says of
/// it and of the manifest candidate next to it.
pub open spec fn classify_spec(path: Seq<char>, kind: DiskKind, sibling_manifest: bool) -> ExtractionView {
    match kind {
        DiskKind::File => if spec_file_name(path) == "Cargo.toml"@ {
            ExtractionView::Manifest(path)
        } else if spec_ends_with(spec_file_name(path), ".md"@) {
            ExtractionView::Markdown(path)
        } else {
            ExtractionView::Source(path)
        },
        DiskKind::Dir => if sibling_manifest {
            ExtractionView::Manifest(spec_manifest_sibling(path))
        } else {
            ExtractionView::Missing(spec_manifest_sibling(path))
        },
        DiskKind::Missing => ExtractionView::Missing(path),
    }
}

/// Classify one absolute argument path. `kind` is what the filesystem
/// says of the path itself; `sibling_manifest_is_file` says whether the
/// manifest candidate next to it exists as a file, and matters only for a
/// directory.
pub fn classify_path(path: String, kind: DiskKind, sibling_manifest_is_file: bool) -> (r:
    Extraction)
    ensures
        r@ == classify_spec(path@, kind, sibling_manifest_is_file),
{
    match kind {
        DiskKind::File => {
            let name = file_name(path.as_str());
            if name == "Cargo.toml".to_owned() {
                Extraction::Manifest(path)
            } else if ends_with(name.as_str(), ".md") {
                Extraction::Markdown(path)
            } else {
                Extraction::Source(path)
            }
        },
        DiskKind::Dir => {
            let sibling = manifest_sibling(path.as_str());
            if sibling_manifest_is_file {
                Extraction::Manifest(sibling)
            } else {
                Extraction::Missing(sibling)
            }
        },
        DiskKind::Missing => Extraction::Missing(path),
    }
}

/// An argument path made absolute against the working directory.
pub open spec fn spec_absolutize(cwd: Seq<char>, path: Seq<char>) -> Seq<char> {
    if spec_is_absolute(path) {
        path
    } else {
        spec_join(cwd, path)
    }
}

pub fn absolutize(cwd: &str, path: &str) -> (r: String)
    ensures
        r@ == spec_absolutize(cwd@, path@),
{
    if is_absolute(path) {
        path.to_owned()
    } else {
        join_path(cwd, path)
    }
}

/// The paths of a walk that name source files, in walk order.
pub open spec fn sources_only(s: Seq<Seq<char>>) -> Seq<Seq<char>>
    decreases s.len(),
{
    if s.len() == 0 {
        s
    } else {
        (if spec_ends_with(s[0], ".rs"@) {
            seq![s[0]]
        } else {
            Seq::<Seq<char>>::empty()
        }) + sources_only(s.drop_first())
    }
}

/// Keep exactly the paths with the source-file extension, in order: the
/// module-unaware filter of the shallow traversal mode.
pub fn filter_sources(paths: &Vec<String>) -> (r: Vec<String>)
    ensures
        names_view(r@) == sources_only(names_view(paths@)),
{
    let ghost all = names_view(paths@);
    let mut acc: Vec<String> = Vec::new();
    let mut i: usize = 0;
    proof {
        assert(all.skip(0) =~= all);
        assert(names_view(acc@) + sources_only(all) =~= sources_only(all));
    }
    while i < paths.len()
        invariant
            i <= paths.len(),
            all == names_view(paths@),
            sources_only(all) == names_view(acc@) + sources_only(all.skip(i as int)),
        decreases paths.len() - i,
    {
        proof {
            assert(all.skip(i as int)[0] == paths@[i as int]@);
            assert(all.skip(i as int).drop_first() =~= all.skip(i + 1));
        }
        let ghost acc0 = acc@;
        if ends_with(paths[i].as_str(), ".rs") {
            acc.push(paths[i].clone());
            proof {
                assert(names_view(acc@) =~= names_view(acc0) + seq![acc@.last()@]);
                assert(names_view(acc0) + (seq![acc@.last()@] + sources_only(all.skip(i + 1)))
                    =~= names_view(acc@) + sources_only(all.skip(i + 1)));
            }
        }
        i = i + 1;
    }
    proof {
        assert(all.skip(paths@.len() as int) =~= Seq::<Seq<char>>::empty());
        assert(names_view(acc@) + Seq::<Seq<char>>::empty() =~= names_view(acc@));
    }
    acc
}

} // verus!
