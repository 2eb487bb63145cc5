//! Resolves a parsed template against an ordered chain of providers —
//! meta values, styles, computed values — into styled segments.
//!
//! For a variable in value position the chain is tried in order: meta,
//! then style, then value. The first applicable provider answers. A value
//! provider may answer with an error, which aborts the whole resolution:
//! partial output is never emitted as if complete. A variable that no
//! provider claims contributes nothing; so does one that a style provider
//! claims, a style handle having no text of its own.

use vstd::prelude::*;
use vstd::string::*;
use crate::errors::{FormatError, SpecError};
use crate::template::{Piece, SpecPiece, pieces_view};

verus! {

/// One styled fragment of the rendered segment sequence.
#[derive(Debug, PartialEq, Eq)]
pub struct ResolvedSegment {
    pub text: String,
    /// The opaque style handle in force, if any.
    pub style: Option<String>,
}

/// Mathematical image of a `ResolvedSegment`.
#[verifier::ext_equal]
pub struct SpecSegment {
    pub text: Seq<char>,
    pub style: Option<Seq<char>>,
}

impl View for ResolvedSegment {
    type V = SpecSegment;

    open spec fn view(&self) -> SpecSegment {
        SpecSegment {
            text: self.text@,
            style: match self.style {
                Some(ref s) => Some(s@),
                None => None,
            },
        }
    }
}

/// The views of a sequence of segments.
pub open spec fn segs_view(v: Seq<ResolvedSegment>) -> Seq<SpecSegment> {
    v.map_values(|s: ResolvedSegment| s@)
}

/// The resolver chain, reified as ordered name/answer lists.
pub struct Providers {
    /// Meta variables: static configuration text, no computation.
    pub meta: Vec<(String, String)>,
    /// Style variables: names bound to opaque style handles.
    pub styles: Vec<(String, String)>,
    /// Value variables: computed answers, each a value or an error.
    pub values: Vec<(String, Result<String, FormatError>)>,
}

/// Mathematical image of `Providers`.
#[verifier::ext_equal]
pub struct SpecProviders {
    pub meta: Seq<(Seq<char>, Seq<char>)>,
    pub styles: Seq<(Seq<char>, Seq<char>)>,
    pub values: Seq<(Seq<char>, Result<Seq<char>, SpecError>)>,
}

/// The views of a name/text list.
pub open spec fn pairs_view(v: Seq<(String, String)>) -> Seq<(Seq<char>, Seq<char>)> {
    v.map_values(|p: (String, String)| (p.0@, p.1@))
}

/// The views of a name/answer list.
pub open spec fn values_view(v: Seq<(String, Result<String, FormatError>)>) -> Seq<
    (Seq<char>, Result<Seq<char>, SpecError>),
> {
    v.map_values(
        |p: (String, Result<String, FormatError>)|
            (
                p.0@,
                match p.1 {
                    Ok(s) => Ok::<Seq<char>, SpecError>(s@),
                    Err(e) => Err::<Seq<char>, SpecError>(e@),
                },
            ),
    )
}

impl View for Providers {
    type V = SpecProviders;

    open spec fn view(&self) -> SpecProviders {
        SpecProviders {
            meta: pairs_view(self.meta@),
            styles: pairs_view(self.styles@),
            values: values_view(self.values@),
        }
    }
}

/// First answer for `k` in an ordered name/answer list.
pub open spec fn spec_lookup<V>(l: Seq<(Seq<char>, V)>, k: Seq<char>) -> Option<V>
    decreases l.len(),
{
    if l.len() == 0 {
        None
    } else if l[0].0 == k {
        Some(l[0].1)
    } else {
        spec_lookup(l.drop_first(), k)
    }
}

fn lookup_pair(l: &Vec<(String, String)>, k: &String) -> (r: Option<String>)
    ensures
        match r {
            Some(v) => spec_lookup(pairs_view(l@), k@) == Some(v@),
            None => spec_lookup(pairs_view(l@), k@) is None,
        },
{
    let mut i: usize = 0;
    proof {
        assert(pairs_view(l@).skip(0) =~= pairs_view(l@));
    }
    while i < l.len()
        invariant
            i <= l@.len(),
            spec_lookup(pairs_view(l@), k@) == spec_lookup(pairs_view(l@).skip(i as int), k@),
        decreases l@.len() - i,
    {
        proof {
            assert(pairs_view(l@).skip(i as int)[0] == (l@[i as int].0@, l@[i as int].1@));
            assert(pairs_view(l@).skip(i as int).drop_first() =~= pairs_view(l@).skip(i + 1));
        }
        if l[i].0.eq(k) {
            return Some(l[i].1.clone());
        }
        i += 1;
    }
    proof {
        assert(pairs_view(l@).skip(l@.len() as int) =~= Seq::empty());
    }
    None
}

fn lookup_value(l: &Vec<(String, Result<String, FormatError>)>, k: &String) -> (r: Option<
    Result<String, FormatError>,
>)
    ensures
        match r {
            Some(Ok(v)) => spec_lookup(values_view(l@), k@) == Some(Ok::<Seq<char>, SpecError>(v@)),
            Some(Err(e)) => spec_lookup(values_view(l@), k@) == Some(
                Err::<Seq<char>, SpecError>(e@),
            ),
            None => spec_lookup(values_view(l@), k@) is None,
        },
{
    let mut i: usize = 0;
    proof {
        assert(values_view(l@).skip(0) =~= values_view(l@));
    }
    while i < l.len()
        invariant
            i <= l@.len(),
            spec_lookup(values_view(l@), k@) == spec_lookup(values_view(l@).skip(i as int), k@),
        decreases l@.len() - i,
    {
        proof {
            assert(values_view(l@).skip(i as int)[0] == values_view(l@)[i as int]);
            assert(values_view(l@).skip(i as int).drop_first() =~= values_view(l@).skip(i + 1));
        }
        if l[i].0.eq(k) {
            let answer = match &l[i].1 {
                Ok(v) => Ok(v.clone()),
                Err(e) => Err(e.dup()),
            };
            return Some(answer);
        }
        i += 1;
    }
    proof {
        assert(values_view(l@).skip(l@.len() as int) =~= Seq::empty());
    }
    None
}

/// The style handle for a piece's scope name, if the scope has one and a
/// style provider knows it.
pub open spec fn spec_style_of(
    styles: Seq<(Seq<char>, Seq<char>)>,
    style: Option<Seq<char>>,
) -> Option<Seq<char>> {
    match style {
        None => None,
        Some(n) => spec_lookup(styles, n),
    }
}

/// What one piece contributes: a segment, nothing, or an error.
pub open spec fn spec_render_piece(p: SpecPiece, prov: SpecProviders) -> Result<
    Option<SpecSegment>,
    SpecError,
> {
    if !p.var {
        if p.text.len() == 0 {
            Ok(None)
        } else {
            Ok(Some(SpecSegment { text: p.text, style: spec_style_of(prov.styles, p.style) }))
        }
    } else {
        match spec_lookup(prov.meta, p.text) {
            Some(v) => if v.len() == 0 {
                Ok(None)
            } else {
                Ok(Some(SpecSegment { text: v, style: spec_style_of(prov.styles, p.style) }))
            },
            None => match spec_lookup(prov.styles, p.text) {
                Some(_) => Ok(None),
                None => match spec_lookup(prov.values, p.text) {
                    Some(Ok(v)) => if v.len() == 0 {
                        Ok(None)
                    } else {
                        Ok(
                            Some(
                                SpecSegment {
                                    text: v,
                                    style: spec_style_of(prov.styles, p.style),
                                },
                            ),
                        )
                    },
                    Some(Err(e)) => Err(e),
                    None => Ok(None),
                },
            },
        }
    }
}

/// The segments of a whole piece sequence, in template order; the leftmost
/// provider error aborts everything after it.
pub open spec fn spec_render(ps: Seq<SpecPiece>, prov: SpecProviders) -> Result<
    Seq<SpecSegment>,
    SpecError,
>
    decreases ps.len(),
{
    if ps.len() == 0 {
        Ok(Seq::empty())
    } else {
        match spec_render(ps.drop_last(), prov) {
            Err(e) => Err(e),
            Ok(segs) => match spec_render_piece(ps.last(), prov) {
                Err(e) => Err(e),
                Ok(None) => Ok(segs),
                Ok(Some(sg)) => Ok(segs.push(sg)),
            },
        }
    }
}

fn style_of(prov: &Providers, style: &Option<String>) -> (r: Option<String>)
    ensures
        match r {
            Some(v) => spec_style_of(prov@.styles, crate::template::opt_view(*style)) == Some(v@),
            None => spec_style_of(prov@.styles, crate::template::opt_view(*style)) is None,
        },
{
    match style {
        None => None,
        Some(n) => lookup_pair(&prov.styles, n),
    }
}

fn render_piece(p: &Piece, prov: &Providers) -> (r: Result<Option<ResolvedSegment>, FormatError>)
    ensures
        match r {
            Ok(Some(sg)) => spec_render_piece(p@, prov@) == Ok::<Option<SpecSegment>, SpecError>(
                Some(sg@),
            ),
            Ok(None) => spec_render_piece(p@, prov@) == Ok::<Option<SpecSegment>, SpecError>(None),
            Err(e) => spec_render_piece(p@, prov@) == Err::<Option<SpecSegment>, SpecError>(e@),
        },
{
    if !p.var {
        if p.text.as_str().unicode_len() == 0 {
            Ok(None)
        } else {
            Ok(Some(ResolvedSegment { text: p.text.clone(), style: style_of(prov, &p.style) }))
        }
    } else {
        match lookup_pair(&prov.meta, &p.text) {
            Some(v) => {
                if v.as_str().unicode_len() == 0 {
                    Ok(None)
                } else {
                    Ok(Some(ResolvedSegment { text: v, style: style_of(prov, &p.style) }))
                }
            },
            None => {
                match lookup_pair(&prov.styles, &p.text) {
                    Some(_) => Ok(None),
                    None => {
                        match lookup_value(&prov.values, &p.text) {
                            Some(Ok(v)) => {
                                if v.as_str().unicode_len() == 0 {
                                    Ok(None)
                                } else {
                                    Ok(
                                        Some(
                                            ResolvedSegment {
                                                text: v,
                                                style: style_of(prov, &p.style),
                                            },
                                        ),
                                    )
                                }
                            },
                            Some(Err(e)) => Err(e),
                            None => Ok(None),
                        }
                    },
                }
            },
        }
    }
}

/// Walks the pieces in template order and resolves each through the chain.
pub fn render(pieces: &Vec<Piece>, prov: &Providers) -> (r: Result<
    Vec<ResolvedSegment>,
    FormatError,
>)
    ensures
        match r {
            Ok(segs) => spec_render(pieces_view(pieces@), prov@) == Ok::<
                Seq<SpecSegment>,
                SpecError,
            >(segs_view(segs@)),
            Err(e) => spec_render(pieces_view(pieces@), prov@) == Err::<
                Seq<SpecSegment>,
                SpecError,
            >(e@),
        },
{
    let mut out: Vec<ResolvedSegment> = Vec::new();
    let mut i: usize = 0;
    proof {
        assert(pieces_view(pieces@).take(0) =~= Seq::<SpecPiece>::empty());
        assert(segs_view(out@) =~= Seq::<SpecSegment>::empty());
    }
    while i < pieces.len()
        invariant
            i <= pieces@.len(),
            spec_render(pieces_view(pieces@).take(i as int), prov@) == Ok::<
                Seq<SpecSegment>,
                SpecError,
            >(segs_view(out@)),
        decreases pieces@.len() - i,
    {
        let ghost pv = pieces_view(pieces@);
        proof {
            assert(pv.take(i + 1).drop_last() =~= pv.take(i as int));
            assert(pv.take(i + 1).last() == pv[i as int]);
            assert(pv[i as int] == pieces@[i as int]@);
        }
        match render_piece(&pieces[i], prov) {
            Ok(Some(sg)) => {
                let ghost sgv = sg@;
                let ghost pre = out@;
                out.push(sg);
                proof {
                    assert(segs_view(out@) =~= segs_view(pre).push(sgv));
                }
            },
            Ok(None) => {},
            Err(e) => {
                proof {
                    lemma_render_prefix_err(pv, prov@, i as int, e@);
                }
                return Err(e);
            },
        }
        i += 1;
    }
    proof {
        assert(pieces_view(pieces@).take(pieces@.len() as int) =~= pieces_view(pieces@));
    }
    Ok(out)
}

/// A referenced variable whose value provider answers with an error — and
/// that no meta or style provider claims — aborts the whole resolution:
/// partial output is never emitted as if complete.
pub proof fn lemma_render_err_if_err_var(ps: Seq<SpecPiece>, prov: SpecProviders, name: Seq<char>)
    requires
        crate::template::spec_references(ps, name),
        spec_lookup(prov.meta, name) is None,
        spec_lookup(prov.styles, name) is None,
        spec_lookup(prov.values, name) matches Some(Err(_)),
    ensures
        spec_render(ps, prov) is Err,
    decreases ps.len(),
{
    let i = choose|i: int|
        0 <= i < ps.len() && (#[trigger] ps[i]).var && ps[i].text == name;
    if i == ps.len() - 1 {
        assert(spec_render_piece(ps[i], prov) is Err);
    } else {
        assert(ps.drop_last()[i] == ps[i]);
        assert(crate::template::spec_references(ps.drop_last(), name));
        lemma_render_err_if_err_var(ps.drop_last(), prov, name);
    }
}

/// A prefix that rendered cleanly followed by an erroring piece makes the
/// whole sequence an error with that piece's reason.
proof fn lemma_render_prefix_err(ps: Seq<SpecPiece>, prov: SpecProviders, i: int, e: SpecError)
    requires
        0 <= i < ps.len(),
        spec_render(ps.take(i), prov) is Ok,
        spec_render_piece(ps[i], prov) == Err::<Option<SpecSegment>, SpecError>(e),
    ensures
        spec_render(ps, prov) == Err::<Seq<SpecSegment>, SpecError>(e),
    decreases ps.len(),
{
    assert(ps.take(ps.len() as int) =~= ps);
    if i == ps.len() - 1 {
        assert(ps.drop_last() =~= ps.take(i));
    } else {
        assert(ps.drop_last() =~= ps.take(ps.len() - 1));
        assert(ps.take(ps.len() - 1).take(i) =~= ps.take(i));
        assert(ps.take(ps.len() - 1)[i] == ps[i]);
        lemma_render_prefix_err(ps.take(ps.len() - 1), prov, i, e);
    }
}

} // verus!
