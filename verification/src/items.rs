//! The unit flowing through a traversal run: a source file, a markdown
//! file, or the free-text description taken from a build manifest.

use vstd::prelude::*;

verus! {

/// One candidate for checking. Paths and the description are carried as
/// plain strings.
#[derive(Debug, Clone, PartialEq, Eq)]
pub enum CheckItem {
    Markdown(String),
    Source(String),
    ManifestDescription(String),
}

/// The mathematical value of a `CheckItem`: the same variant over the
/// character sequence of its payload.
pub enum ItemView {
    Markdown(Seq<char>),
    Source(Seq<char>),
    ManifestDescription(Seq<char>),
}

impl View for CheckItem {
    type V = ItemView;

    open spec fn view(&self) -> ItemView {
        match self {
            CheckItem::Markdown(p) => ItemView::Markdown(p@),
            CheckItem::Source(p) => ItemView::Source(p@),
            CheckItem::ManifestDescription(d) => ItemView::ManifestDescription(d@),
        }
    }
}

/// The values of a sequence of check items.
pub open spec fn items_view(s: Seq<CheckItem>) -> Seq<ItemView> {
    s.map_values(|it: CheckItem| it@)
}

/// Equality of check items: same variant, same payload text.
pub fn item_eq(a: &CheckItem, b: &CheckItem) -> (r: bool)
    ensures
        r == (a@ == b@),
{
    match (a, b) {
        (CheckItem::Markdown(x), CheckItem::Markdown(y)) => *x == *y,
        (CheckItem::Source(x), CheckItem::Source(y)) => *x == *y,
        (CheckItem::ManifestDescription(x), CheckItem::ManifestDescription(y)) => *x == *y,
        _ => false,
    }
}

#[derive(Debug)]
pub enum ExpandError {
    /// A non-source item reached a place where a source file was owed;
    /// this is a defensive branch that a correct caller never takes.
    NotASourceFile,
}

/// The source path a retained item points at. Only source items can be
/// loaded and tokenized; any other item reaching that stage is an explicit
/// error, never a silent no-op.
pub fn source_path_of(item: &CheckItem) -> (r: Result<String, ExpandError>)
    ensures
        match r {
            Ok(p) => item@ matches ItemView::Source(q) && p@ == q,
            Err(e) => !(item@ is Source) && e is NotASourceFile,
        },
{
    match item {
        CheckItem::Source(p) => Ok(p.clone()),
        _ => Err(ExpandError::NotASourceFile),
    }
}

} // verus!
