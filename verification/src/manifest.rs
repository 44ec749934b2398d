//! Assembling check items from a build manifest's completed metadata.
//!
//! Loading and completing the manifest is an outside concern; this module
//! is handed the completed plain facts — the build products, the readme
//! field together with whether the named file exists, and the description
//! — and yields the ordered check items: one source item per
//! check-eligible product that names a file, then the readme as a
//! markdown item when its file exists, then the description.

use vstd::prelude::*;
use vstd::string::*;

use crate::items::{items_view, CheckItem, ItemView};
use crate::pathing::{join_path, spec_join};

verus! {

/// One build product of the manifest: its source path, if it names one,
/// and whether it takes part in documentation checking.
#[derive(Debug, Clone)]
pub struct ManifestProduct {
    pub path: Option<String>,
    pub doctest: bool,
}

pub struct ProductView {
    pub path: Option<Seq<char>>,
    pub doctest: bool,
}

impl View for ManifestProduct {
    type V = ProductView;

    open spec fn view(&self) -> ProductView {
        ProductView {
            path: match self.path {
                Some(p) => Some(p@),
                None => None,
            },
            doctest: self.doctest,
        }
    }
}

pub open spec fn products_view(s: Seq<ManifestProduct>) -> Seq<ProductView> {
    s.map_values(|p: ManifestProduct| p@)
}

/// The source items of a product sequence: one per check-eligible product
/// that names a file, in product order, resolved relative to the manifest
/// directory.
pub open spec fn products_items(dir: Seq<char>, prods: Seq<ProductView>) -> Seq<ItemView>
    decreases prods.len(),
{
    if prods.len() == 0 {
        Seq::empty()
    } else {
        (match prods[0].path {
            Some(p) => if prods[0].doctest {
                seq![ItemView::Source(spec_join(dir, p))]
            } else {
                Seq::empty()
            },
            None => Seq::empty(),
        }) + products_items(dir, prods.drop_first())
    }
}

/// Every check item a manifest yields, in order: product sources, then
/// the readme when its file exists, then the description.
pub open spec fn manifest_items_spec(
    dir: Seq<char>,
    prods: Seq<ProductView>,
    readme: Option<Seq<char>>,
    readme_is_file: bool,
    description: Option<Seq<char>>,
) -> Seq<ItemView> {
    products_items(dir, prods) + (match readme {
        Some(p) => if readme_is_file {
            seq![ItemView::Markdown(spec_join(dir, p))]
        } else {
            Seq::empty()
        },
        None => Seq::empty(),
    }) + (match description {
        Some(d) => seq![ItemView::ManifestDescription(d)],
        None => Seq::empty(),
    })
}

/// Assemble the check items of one manifest from its completed metadata.
/// `readme_is_file` says whether the readme path, resolved relative to
/// the manifest directory, exists as a file; a readme naming a missing
/// file is dropped, not fatal.
pub fn manifest_items(
    dir: &str,
    products: &Vec<ManifestProduct>,
    readme: Option<&String>,
    readme_is_file: bool,
    description: Option<&String>,
) -> (r: Vec<CheckItem>)
    ensures
        items_view(r@) == manifest_items_spec(
            dir@,
            products_view(products@),
            match readme {
                Some(p) => Some(p@),
                None => None,
            },
            readme_is_file,
            match description {
                Some(d) => Some(d@),
                None => None,
            },
        ),
{
    let ghost pv = products_view(products@);
    let mut acc: Vec<CheckItem> = Vec::new();
    let mut i: usize = 0;
    proof {
        assert(pv.skip(0) =~= pv);
        assert(items_view(acc@) + products_items(dir@, pv) =~= products_items(dir@, pv));
    }
    while i < products.len()
        invariant
            i <= products.len(),
            pv == products_view(products@),
            products_items(dir@, pv) == items_view(acc@) + products_items(
                dir@,
                pv.skip(i as int),
            ),
        decreases products.len() - i,
    {
        proof {
            assert(pv.skip(i as int)[0] == products@[i as int]@);
            assert(pv.skip(i as int).drop_first() =~= pv.skip(i + 1));
        }
        let ghost acc0 = acc@;
        if products[i].doctest {
            match &products[i].path {
                Some(p) => {
                    acc.push(CheckItem::Source(join_path(dir, p.as_str())));
                    proof {
                        assert(items_view(acc@) =~= items_view(acc0) + seq![acc@.last()@]);
                        assert(items_view(acc0) + (seq![acc@.last()@] + products_items(
                            dir@,
                            pv.skip(i + 1),
                        )) =~= items_view(acc@) + products_items(dir@, pv.skip(i + 1)));
                    }
                },
                None => {},
            }
        }
        i = i + 1;
    }
    proof {
        assert(pv.skip(products@.len() as int) =~= Seq::<ProductView>::empty());
        assert(items_view(acc@) + Seq::<ItemView>::empty() =~= items_view(acc@));
    }
    match readme {
        Some(p) => {
            if readme_is_file {
                let ghost acc0 = acc@;
                acc.push(CheckItem::Markdown(join_path(dir, p.as_str())));
                proof {
                    assert(items_view(acc@) =~= items_view(acc0) + seq![acc@.last()@]);
                }
            }
        },
        None => {},
    }
    match description {
        Some(d) => {
            let ghost acc0 = acc@;
            acc.push(CheckItem::ManifestDescription(d.clone()));
            proof {
                assert(items_view(acc@) =~= items_view(acc0) + seq![acc@.last()@]);
            }
        },
        None => {},
    }
    proof {
        assert(items_view(acc@) =~= manifest_items_spec(
            dir@,
            pv,
            match readme {
                Some(p) => Some(p@),
                None => None,
            },
            readme_is_file,
            match description {
                Some(d) => Some(d@),
                None => None,
            },
        ));
    }
    acc
}

} // verus!
