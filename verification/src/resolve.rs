//! Child-module recognition and resolution.
//!
//! A three-state recognizer walks a file's flat token sequence and collects
//! every declaration of the shape "module keyword, identifier, isolated
//! terminator", in order. An isolated terminator is a `;` not glued to an
//! adjacent punctuation mark: that is what tells a file-reference
//! declaration from an inline block. Any unmatched token returns the
//! recognizer to its initial state.
//!
//! A declared name then has two candidate paths next to the declaring
//! file: a directory-style entry `name/mod.rs` and a sibling `name.rs`.
//! Exactly one existing candidate resolves the declaration; both existing
//! is a hard ambiguity error; neither is a silent skip.

use vstd::prelude::*;
use vstd::string::*;

use crate::pathing::{join_path, parent_dir, spec_join, spec_parent};
use crate::tokens::{lexed, tokenize, toks_view, Tok, Token};

verus! {

/// The recognizer's state: waiting for the module keyword, waiting for the
/// module name, or waiting for the isolated terminator of the named module.
pub enum ScanState {
    SeekKeyword,
    SeekName,
    SeekTerminator(Seq<char>),
}

/// The module names that the recognizer collects from `toks`, starting in
/// state `st`, in declaration order.
pub open spec fn scan_spec(toks: Seq<Tok>, st: ScanState) -> Seq<Seq<char>>
    decreases toks.len(),
{
    if toks.len() == 0 {
        Seq::empty()
    } else {
        let rest = toks.drop_first();
        match toks[0] {
            Tok::Ident(name) => match st {
                ScanState::SeekKeyword => scan_spec(
                    rest,
                    if name == "mod"@ {
                        ScanState::SeekName
                    } else {
                        ScanState::SeekKeyword
                    },
                ),
                ScanState::SeekName => scan_spec(rest, ScanState::SeekTerminator(name)),
                ScanState::SeekTerminator(_) => scan_spec(rest, ScanState::SeekKeyword),
            },
            Tok::Punct(c, alone) => match st {
                ScanState::SeekTerminator(name) => if c == ';' && alone {
                    seq![name] + scan_spec(rest, ScanState::SeekKeyword)
                } else {
                    scan_spec(rest, ScanState::SeekKeyword)
                },
                _ => scan_spec(rest, ScanState::SeekKeyword),
            },
            Tok::Other => scan_spec(rest, ScanState::SeekKeyword),
        }
    }
}

pub open spec fn names_view(v: Seq<String>) -> Seq<Seq<char>> {
    v.map_values(|s: String| s@)
}

enum Seeking {
    Keyword,
    Name,
    Terminator(String),
}

impl Seeking {
    spec fn view(&self) -> ScanState {
        match self {
            Seeking::Keyword => ScanState::SeekKeyword,
            Seeking::Name => ScanState::SeekName,
            Seeking::Terminator(s) => ScanState::SeekTerminator(s@),
        }
    }
}

/// Collect the names of all child-module declarations in a token sequence,
/// in declaration order.
pub fn scan_modules(toks: &Vec<Token>) -> (r: Vec<String>)
    ensures
        names_view(r@) == scan_spec(toks_view(toks@), ScanState::SeekKeyword),
{
    let ghost all = toks_view(toks@);
    let mut acc: Vec<String> = Vec::new();
    let mut state = Seeking::Keyword;
    let mut i: usize = 0;
    proof {
        assert(all.skip(0) =~= all);
        assert(names_view(acc@) + scan_spec(all, ScanState::SeekKeyword) =~= scan_spec(
            all,
            ScanState::SeekKeyword,
        ));
    }
    while i < toks.len()
        invariant
            i <= toks.len(),
            all == toks_view(toks@),
            scan_spec(all, ScanState::SeekKeyword) == names_view(acc@) + scan_spec(
                all.skip(i as int),
                state@,
            ),
        decreases toks.len() - i,
    {
        proof {
            assert(all.skip(i as int)[0] == toks@[i as int]@);
            assert(all.skip(i as int).drop_first() =~= all.skip(i + 1));
        }
        match &toks[i] {
            Token::Ident(name) => {
                match state {
                    Seeking::Keyword => {
                        if *name == "mod".to_owned() {
                            state = Seeking::Name;
                        }
                    },
                    Seeking::Name => {
                        state = Seeking::Terminator(name.clone());
                    },
                    Seeking::Terminator(_) => {
                        state = Seeking::Keyword;
                    },
                }
            },
            Token::Punct(c, alone) => {
                let mut finish: Option<String> = None;
                if let Seeking::Terminator(found) = state {
                    if *c == ';' && *alone {
                        finish = Some(found);
                    }
                }
                state = Seeking::Keyword;
                if let Some(found) = finish {
                    acc.push(found);
                    proof {
                        assert(names_view(acc@) =~= names_view(acc@.drop_last()) + seq![
                            acc@.last()@,
                        ]);
                        assert(names_view(acc@.drop_last()) + (seq![acc@.last()@] + scan_spec(
                            all.skip(i + 1),
                            state@,
                        )) =~= names_view(acc@) + scan_spec(all.skip(i + 1), state@));
                    }
                }
            },
            Token::Other => {
                state = Seeking::Keyword;
            },
        }
        i = i + 1;
    }
    proof {
        assert(all.skip(toks@.len() as int) =~= Seq::<Tok>::empty());
        assert(names_view(acc@) + Seq::<Seq<char>>::empty() =~= names_view(acc@));
    }
    acc
}

/// The directory-style candidate for module `name` declared in a file whose
/// directory is `base`: `base/name/mod.rs`.
pub open spec fn spec_dir_candidate(base: Seq<char>, name: Seq<char>) -> Seq<char> {
    spec_join(spec_join(base, name), "mod.rs"@)
}

/// The sibling-file candidate for module `name` declared in a file whose
/// directory is `base`: `base/name.rs`.
pub open spec fn spec_sib_candidate(base: Seq<char>, name: Seq<char>) -> Seq<char> {
    spec_join(base, name) + ".rs"@
}

/// Both candidate paths for one declared module name, relative to the
/// declaring file's directory.
pub fn mod_candidates(base: &str, name: &str) -> (r: (String, String))
    ensures
        r.0@ == spec_dir_candidate(base@, name@),
        r.1@ == spec_sib_candidate(base@, name@),
{
    let stem = join_path(base, name);
    let dir_entry = join_path(stem.as_str(), "mod.rs");
    let mut sibling = stem;
    sibling.append(".rs");
    (dir_entry, sibling)
}

/// What the filesystem says of one declared module name: whether each of
/// the two candidate paths exists as a file.
#[derive(Debug, Clone, Copy, PartialEq, Eq, Structural)]
pub struct ModuleProbe {
    pub dir_entry_is_file: bool,
    pub sibling_is_file: bool,
}

/// The ambiguity error: a module whose both candidate paths exist, named
/// together with the declaring file.
#[derive(Debug)]
pub struct AmbiguousModule {
    pub declaring: String,
    pub dir_entry: String,
    pub sibling: String,
}

impl AmbiguousModule {
    /// The fatal error line, naming both candidate paths.
    pub fn message(&self) -> (r: String)
        ensures
            r@ == "Detected both module entry files: "@ + self.dir_entry@ + " and "@
                + self.sibling@,
    {
        let mut s = "Detected both module entry files: ".to_owned();
        s.append(self.dir_entry.as_str());
        s.append(" and ");
        s.append(self.sibling.as_str());
        s
    }
}

/// Resolution of a name sequence against its probes: each name with
/// exactly one existing candidate adds that candidate, in
/// declaration order; a name with neither candidate is skipped; the first
/// name with both candidates is the ambiguity error, given as its pair of
/// candidate paths.
pub open spec fn resolve_spec(base: Seq<char>, names: Seq<Seq<char>>, probes: Seq<ModuleProbe>) -> Result<
    Seq<Seq<char>>,
    (Seq<char>, Seq<char>),
> recommends names.len() == probes.len() decreases names.len() {
    if names.len() == 0 {
        Ok(Seq::empty())
    } else {
        let d = spec_dir_candidate(base, names[0]);
        let s = spec_sib_candidate(base, names[0]);
        if probes[0].dir_entry_is_file && probes[0].sibling_is_file {
            Err((d, s))
        } else {
            match resolve_spec(base, names.drop_first(), probes.drop_first()) {
                Ok(rest) => Ok(
                    (if probes[0].dir_entry_is_file {
                        seq![d]
                    } else if probes[0].sibling_is_file {
                        seq![s]
                    } else {
                        Seq::empty()
                    }) + rest,
                ),
                Err(e) => Err(e),
            }
        }
    }
}

/// Resolve the declared module names of the file `declaring` to concrete
/// paths, using one filesystem probe per name. Candidates are computed
/// relative to the declaring file's directory. Exactly the names with one
/// existing candidate are kept, in declaration order; the first name whose
/// both candidates exist is a fatal ambiguity naming the declaring file
/// and both paths.
pub fn resolve_modules(declaring: &str, names: &Vec<String>, probes: &Vec<ModuleProbe>) -> (r:
    Result<Vec<String>, AmbiguousModule>)
    requires
        names@.len() == probes@.len(),
    ensures
        match r {
            Ok(v) => resolve_spec(spec_parent(declaring@), names_view(names@), probes@) == Ok::<
                _,
                (Seq<char>, Seq<char>),
            >(names_view(v@)),
            Err(e) => resolve_spec(spec_parent(declaring@), names_view(names@), probes@) == Err::<
                Seq<Seq<char>>,
                _,
            >((e.dir_entry@, e.sibling@)) && e.declaring@ == declaring@,
        },
{
    let base = parent_dir(declaring);
    let ghost bs = spec_parent(declaring@);
    let ghost nv = names_view(names@);
    let mut acc: Vec<String> = Vec::new();
    let mut i: usize = 0;
    proof {
        assert(nv.skip(0) =~= nv);
        assert(probes@.skip(0) =~= probes@);
    }
    while i < names.len()
        invariant
            i <= names.len(),
            names@.len() == probes@.len(),
            base@ == bs,
            bs == spec_parent(declaring@),
            nv == names_view(names@),
            resolve_spec(bs, nv, probes@) == (match resolve_spec(
                bs,
                nv.skip(i as int),
                probes@.skip(i as int),
            ) {
                Ok(rest) => Ok::<_, (Seq<char>, Seq<char>)>(names_view(acc@) + rest),
                Err(e) => Err(e),
            }),
        decreases names.len() - i,
    {
        proof {
            assert(nv.skip(i as int)[0] == names@[i as int]@);
            assert(probes@.skip(i as int)[0] == probes@[i as int]);
            assert(nv.skip(i as int).drop_first() =~= nv.skip(i + 1));
            assert(probes@.skip(i as int).drop_first() =~= probes@.skip(i + 1));
        }
        let ghost head = nv[i as int];
        let ghost acc0 = acc@;
        let probe = probes[i];
        let (dir_entry, sibling) = mod_candidates(base.as_str(), names[i].as_str());
        if probe.dir_entry_is_file && probe.sibling_is_file {
            proof {
                assert(resolve_spec(bs, nv.skip(i as int), probes@.skip(i as int)) == Err::<
                    Seq<Seq<char>>,
                    _,
                >((spec_dir_candidate(bs, head), spec_sib_candidate(bs, head))));
            }
            return Err(AmbiguousModule { declaring: declaring.to_owned(), dir_entry, sibling });
        }
        if probe.dir_entry_is_file {
            acc.push(dir_entry);
        } else if probe.sibling_is_file {
            acc.push(sibling);
        }
        proof {
            let piece = if probe.dir_entry_is_file {
                seq![spec_dir_candidate(bs, head)]
            } else if probe.sibling_is_file {
                seq![spec_sib_candidate(bs, head)]
            } else {
                Seq::<Seq<char>>::empty()
            };
            assert(names_view(acc@) =~= names_view(acc0) + piece);
            let tail = resolve_spec(bs, nv.skip(i + 1), probes@.skip(i + 1));
            match tail {
                Ok(rest) => {
                    assert(resolve_spec(bs, nv.skip(i as int), probes@.skip(i as int)) == Ok::<
                        _,
                        (Seq<char>, Seq<char>),
                    >(piece + rest));
                    assert(names_view(acc0) + (piece + rest) =~= names_view(acc@) + rest);
                },
                Err(_) => {
                    assert(resolve_spec(bs, nv.skip(i as int), probes@.skip(i as int)) == tail);
                },
            }
        }
        i = i + 1;
    }
    proof {
        assert(nv.skip(names@.len() as int) =~= Seq::<Seq<char>>::empty());
        assert(probes@.skip(names@.len() as int) =~= Seq::<ModuleProbe>::empty());
        assert(names_view(acc@) + Seq::<Seq<char>>::empty() =~= names_view(acc@));
    }
    Ok(acc)
}

/// The error of a text that does not lex as source code.
#[derive(Debug)]
pub enum ScanError {
    Syntax,
}

/// Scan a source text for child-module declarations: lex it with the
/// outside parser and run the recognizer over the flat token sequence.
/// Fails exactly on texts that do not lex.
pub fn scan_source(text: &str) -> (r: Result<Vec<String>, ScanError>)
    ensures
        match r {
            Ok(v) => lexed(text@) matches Some(toks) && names_view(v@) == scan_spec(
                toks,
                ScanState::SeekKeyword,
            ),
            Err(e) => lexed(text@) is None && e is Syntax,
        },
{
    match tokenize(text) {
        Some(toks) => Ok(scan_modules(&toks)),
        None => Err(ScanError::Syntax),
    }
}

} // verus!
