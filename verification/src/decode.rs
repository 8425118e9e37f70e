//! Whole-payload decoding: drives the streaming reader over every
//! subsection and returns the decoded document, proved equal to the decode
//! specification `sd_payload`.

use vstd::prelude::*;
use crate::error::{Error, ErrView, KindView};
use crate::reader::{
    Parser, Section, SectionView, St, st_wf, sd_type, sd_import, sd_export, sd_func, sd_implement,
    sd_types, sd_imports, sd_exports, sd_funcs, sd_implements, sd_section, sd_section_header,
    sd_sections, sd_new, sd_payload, lemma_sd_section_header_consumes, Type, Import, Export, Func,
    Implement, Types, Imports, Exports, Funcs, Implements,
};

verus! {

/// The element-wise view of a sequence of viewable values.
pub open spec fn seq_view<T: View>(s: Seq<T>) -> Seq<T::V> {
    s.map_values(|x: T| x@)
}

/// One decoded subsection, in the order it appeared in the payload.
#[derive(Debug)]
pub enum WitSection {
    /// A type subsection.
    Type(Vec<Type>),
    /// An import subsection.
    Import(Vec<Import>),
    /// An export subsection.
    Export(Vec<Export>),
    /// A function subsection.
    Func(Vec<Func>),
    /// An implement subsection.
    Implement(Vec<Implement>),
}

impl View for WitSection {
    type V = SectionView;

    open spec fn view(&self) -> SectionView {
        match self {
            WitSection::Type(v) => SectionView::Types(seq_view(v@)),
            WitSection::Import(v) => SectionView::Imports(seq_view(v@)),
            WitSection::Export(v) => SectionView::Exports(seq_view(v@)),
            WitSection::Func(v) => SectionView::Funcs(seq_view(v@)),
            WitSection::Implement(v) => SectionView::Implements(v@),
        }
    }
}

/// Drains a type-subsection iterator into a vector.
#[verifier::loop_isolation(false)]
fn decode_types(it: &mut Types<'_>) -> (r: Result<Vec<Type>, Error>)
    requires
        st_wf(old(it)@.0),
        old(it)@.1 >= 0,
    ensures
        match sd_types(old(it)@.0, old(it)@.1 as nat) {
            Ok(items) => r matches Ok(v) && seq_view(v@) == items,
            Err(e) => r matches Err(er) && er@ == e,
        },
{
    let mut acc: Vec<Type> = Vec::new();
    loop
        invariant
            st_wf(it@.0),
            0 <= it@.1,
            sd_types(old(it)@.0, old(it)@.1 as nat) == match sd_types(it@.0, it@.1 as nat) {
                Err(e) => Err::<Seq<crate::reader::TypeView>, ErrView>(e),
                Ok(rest) => Ok(seq_view(acc@) + rest),
            },
        decreases it@.1,
    {
        let ghost st_cur = it@.0;
        let ghost cnt_cur = it@.1;
        let ghost acc0 = acc@;
        match it.next() {
            None => {
                proof {
                    assert(seq_view(acc@) + Seq::<crate::reader::TypeView>::empty() =~= seq_view(
                        acc@,
                    ));
                }
                return Ok(acc);
            },
            Some(Err(e)) => {
                return Err(e);
            },
            Some(Ok(item)) => {
                acc.push(item);
                proof {
                    let (tv, st1) = sd_type(st_cur)->Ok_0;
                    assert(seq_view(acc@) =~= seq_view(acc0) + seq![tv]);
                    match sd_types(st1, (cnt_cur - 1) as nat) {
                        Err(_) => {}
                        Ok(rest) => {
                            assert(seq_view(acc0) + (seq![tv] + rest) =~= seq_view(acc@) + rest);
                        }
                    }
                }
            },
        }
    }
}

/// Drains an import-subsection iterator into a vector.
#[verifier::loop_isolation(false)]
fn decode_imports(it: &mut Imports<'_>) -> (r: Result<Vec<Import>, Error>)
    requires
        st_wf(old(it)@.0),
        old(it)@.1 >= 0,
    ensures
        match sd_imports(old(it)@.0, old(it)@.1 as nat) {
            Ok(items) => r matches Ok(v) && seq_view(v@) == items,
            Err(e) => r matches Err(er) && er@ == e,
        },
{
    let mut acc: Vec<Import> = Vec::new();
    loop
        invariant
            st_wf(it@.0),
            0 <= it@.1,
            sd_imports(old(it)@.0, old(it)@.1 as nat) == match sd_imports(it@.0, it@.1 as nat) {
                Err(e) => Err::<Seq<crate::reader::ImportView>, ErrView>(e),
                Ok(rest) => Ok(seq_view(acc@) + rest),
            },
        decreases it@.1,
    {
        let ghost st_cur = it@.0;
        let ghost cnt_cur = it@.1;
        let ghost acc0 = acc@;
        match it.next() {
            None => {
                proof {
                    assert(seq_view(acc@) + Seq::<crate::reader::ImportView>::empty() =~= seq_view(
                        acc@,
                    ));
                }
                return Ok(acc);
            },
            Some(Err(e)) => {
                return Err(e);
            },
            Some(Ok(item)) => {
                acc.push(item);
                proof {
                    let (tv, st1) = sd_import(st_cur)->Ok_0;
                    assert(seq_view(acc@) =~= seq_view(acc0) + seq![tv]);
                    match sd_imports(st1, (cnt_cur - 1) as nat) {
                        Err(_) => {}
                        Ok(rest) => {
                            assert(seq_view(acc0) + (seq![tv] + rest) =~= seq_view(acc@) + rest);
                        }
                    }
                }
            },
        }
    }
}

/// Drains an export-subsection iterator into a vector.
#[verifier::loop_isolation(false)]
fn decode_exports(it: &mut Exports<'_>) -> (r: Result<Vec<Export>, Error>)
    requires
        st_wf(old(it)@.0),
        old(it)@.1 >= 0,
    ensures
        match sd_exports(old(it)@.0, old(it)@.1 as nat) {
            Ok(items) => r matches Ok(v) && seq_view(v@) == items,
            Err(e) => r matches Err(er) && er@ == e,
        },
{
    let mut acc: Vec<Export> = Vec::new();
    loop
        invariant
            st_wf(it@.0),
            0 <= it@.1,
            sd_exports(old(it)@.0, old(it)@.1 as nat) == match sd_exports(it@.0, it@.1 as nat) {
                Err(e) => Err::<Seq<crate::reader::ExportView>, ErrView>(e),
                Ok(rest) => Ok(seq_view(acc@) + rest),
            },
        decreases it@.1,
    {
        let ghost st_cur = it@.0;
        let ghost cnt_cur = it@.1;
        let ghost acc0 = acc@;
        match it.next() {
            None => {
                proof {
                    assert(seq_view(acc@) + Seq::<crate::reader::ExportView>::empty() =~= seq_view(
                        acc@,
                    ));
                }
                return Ok(acc);
            },
            Some(Err(e)) => {
                return Err(e);
            },
            Some(Ok(item)) => {
                acc.push(item);
                proof {
                    let (tv, st1) = sd_export(st_cur)->Ok_0;
                    assert(seq_view(acc@) =~= seq_view(acc0) + seq![tv]);
                    match sd_exports(st1, (cnt_cur - 1) as nat) {
                        Err(_) => {}
                        Ok(rest) => {
                            assert(seq_view(acc0) + (seq![tv] + rest) =~= seq_view(acc@) + rest);
                        }
                    }
                }
            },
        }
    }
}

/// Drains a function-subsection iterator into a vector.
#[verifier::loop_isolation(false)]
fn decode_funcs(it: &mut Funcs<'_>) -> (r: Result<Vec<Func>, Error>)
    requires
        st_wf(old(it)@.0),
        old(it)@.1 >= 0,
    ensures
        match sd_funcs(old(it)@.0, old(it)@.1 as nat) {
            Ok(items) => r matches Ok(v) && seq_view(v@) == items,
            Err(e) => r matches Err(er) && er@ == e,
        },
{
    let mut acc: Vec<Func> = Vec::new();
    loop
        invariant
            st_wf(it@.0),
            0 <= it@.1,
            sd_funcs(old(it)@.0, old(it)@.1 as nat) == match sd_funcs(it@.0, it@.1 as nat) {
                Err(e) => Err::<Seq<crate::reader::FuncView>, ErrView>(e),
                Ok(rest) => Ok(seq_view(acc@) + rest),
            },
        decreases it@.1,
    {
        let ghost st_cur = it@.0;
        let ghost cnt_cur = it@.1;
        let ghost acc0 = acc@;
        match it.next() {
            None => {
                proof {
                    assert(seq_view(acc@) + Seq::<crate::reader::FuncView>::empty() =~= seq_view(
                        acc@,
                    ));
                }
                return Ok(acc);
            },
            Some(Err(e)) => {
                return Err(e);
            },
            Some(Ok(item)) => {
                acc.push(item);
                proof {
                    let (tv, st1) = sd_func(st_cur)->Ok_0;
                    assert(seq_view(acc@) =~= seq_view(acc0) + seq![tv]);
                    match sd_funcs(st1, (cnt_cur - 1) as nat) {
                        Err(_) => {}
                        Ok(rest) => {
                            assert(seq_view(acc0) + (seq![tv] + rest) =~= seq_view(acc@) + rest);
                        }
                    }
                }
            },
        }
    }
}

/// Drains an implement-subsection iterator into a vector.
#[verifier::loop_isolation(false)]
fn decode_implements(it: &mut Implements<'_>) -> (r: Result<Vec<Implement>, Error>)
    requires
        st_wf(old(it)@.0),
        old(it)@.1 >= 0,
    ensures
        match sd_implements(old(it)@.0, old(it)@.1 as nat) {
            Ok(items) => r matches Ok(v) && v@ == items,
            Err(e) => r matches Err(er) && er@ == e,
        },
{
    let mut acc: Vec<Implement> = Vec::new();
    loop
        invariant
            st_wf(it@.0),
            0 <= it@.1,
            sd_implements(old(it)@.0, old(it)@.1 as nat) == match sd_implements(
                it@.0,
                it@.1 as nat,
            ) {
                Err(e) => Err::<Seq<Implement>, ErrView>(e),
                Ok(rest) => Ok(acc@ + rest),
            },
        decreases it@.1,
    {
        let ghost st_cur = it@.0;
        let ghost cnt_cur = it@.1;
        let ghost acc0 = acc@;
        match it.next() {
            None => {
                proof {
                    assert(acc@ + Seq::<Implement>::empty() =~= acc@);
                }
                return Ok(acc);
            },
            Some(Err(e)) => {
                return Err(e);
            },
            Some(Ok(item)) => {
                acc.push(item);
                proof {
                    let (tv, st1) = sd_implement(st_cur)->Ok_0;
                    assert(acc@ =~= acc0 + seq![tv]);
                    match sd_implements(st1, (cnt_cur - 1) as nat) {
                        Err(_) => {}
                        Ok(rest) => {
                            assert(acc0 + (seq![tv] + rest) =~= acc@ + rest);
                        }
                    }
                }
            },
        }
    }
}

/// Decodes a whole payload into its subsections, in file order.
///
/// `offset` is the absolute position of the payload within the containing
/// file; it is used only for error positions.
#[verifier::loop_isolation(false)]
pub fn decode_payload(offset: usize, bytes: &[u8]) -> (r: Result<Vec<WitSection>, Error>)
    requires
        offset + bytes@.len() <= usize::MAX,
    ensures
        match sd_payload(offset as int, bytes@) {
            Ok(secs) => r matches Ok(v) && seq_view(v@) == secs,
            Err(e) => r matches Err(er) && er@ == e,
        },
{
    let mut parser = match Parser::new(offset, bytes) {
        Ok(p) => p,
        Err(e) => {
            return Err(e);
        },
    };
    let ghost st_start = parser@;
    let mut out: Vec<WitSection> = Vec::new();
    proof {
        match sd_sections(st_start) {
            Err(_) => {}
            Ok(rest) => {
                assert(seq_view(out@) + rest =~= rest);
            }
        }
    }
    loop
        invariant
            st_wf(parser@),
            sd_sections(st_start) == match sd_sections(parser@) {
                Err(e) => Err::<Seq<SectionView>, ErrView>(e),
                Ok(rest) => Ok(seq_view(out@) + rest),
            },
        decreases parser@.s.len(),
    {
        if parser.is_empty() {
            proof {
                match sd_sections(parser@) {
                    Err(_) => {}
                    Ok(rest) => {
                        assert(seq_view(out@) + rest =~= seq_view(out@));
                    }
                }
            }
            return Ok(out);
        }
        let ghost st_cur = parser@;
        let ghost out0 = out@;
        proof {
            lemma_sd_section_header_consumes(st_cur);
        }
        let sec = match parser.section() {
            Ok(s) => s,
            Err(e) => {
                return Err(e);
            },
        };
        let decoded = match sec {
            Section::Type(mut it) => {
                match decode_types(&mut it) {
                    Ok(v) => WitSection::Type(v),
                    Err(e) => {
                        return Err(e);
                    },
                }
            },
            Section::Import(mut it) => {
                match decode_imports(&mut it) {
                    Ok(v) => WitSection::Import(v),
                    Err(e) => {
                        return Err(e);
                    },
                }
            },
            Section::Export(mut it) => {
                match decode_exports(&mut it) {
                    Ok(v) => WitSection::Export(v),
                    Err(e) => {
                        return Err(e);
                    },
                }
            },
            Section::Func(mut it) => {
                match decode_funcs(&mut it) {
                    Ok(v) => WitSection::Func(v),
                    Err(e) => {
                        return Err(e);
                    },
                }
            },
            Section::Implement(mut it) => {
                match decode_implements(&mut it) {
                    Ok(v) => WitSection::Implement(v),
                    Err(e) => {
                        return Err(e);
                    },
                }
            },
        };
        out.push(decoded);
        proof {
            let (sv, st1) = sd_section(st_cur)->Ok_0;
            assert(seq_view(out@) =~= seq_view(out0) + seq![sv]);
            match sd_sections(st1) {
                Err(_) => {}
                Ok(rest) => {
                    assert(seq_view(out0) + (seq![sv] + rest) =~= seq_view(out@) + rest);
                }
            }
        }
    }
}

/// Pushing one element maps through the element-wise view.
pub proof fn lemma_seq_view_push<T: View>(s: Seq<T>, x: T)
    ensures
        seq_view(s.push(x)) == seq_view(s).push(x@),
{
    assert(seq_view(s.push(x)) =~= seq_view(s).push(x@));
}

/// Concatenation maps through the element-wise view.
pub proof fn lemma_seq_view_concat<T: View>(a: Seq<T>, b: Seq<T>)
    ensures
        seq_view(a + b) == seq_view(a) + seq_view(b),
{
    assert(seq_view(a + b) =~= seq_view(a) + seq_view(b));
}

} // verus!
