//! The control-document grammar: lines folded into logical fields, and the
//! split of a field into name and value.

use vstd::prelude::*;
use crate::error::{ErrorModel, ReleaseError};
use crate::text::{
    blank_byte, copy_range, find_byte, first_index_of, is_blank, push_bytes, trim, trim_bytes,
};

verus! {

/// Tokenizer state: the logical lines so far, and whether a blank line has
/// ended the paragraph.
pub open spec fn fold_step(st: (Seq<Seq<u8>>, bool), line: Seq<u8>) -> Result<(Seq<Seq<u8>>, bool), ErrorModel> {
    let (fields, ended) = st;
    if ended {
        Ok(st)
    } else if trim(line).len() == 0 {
        Ok((fields, true))
    } else if is_blank(line[0]) {
        if fields.len() == 0 {
            Err(ErrorModel::MalformedField(line))
        } else {
            Ok((fields.update(fields.len() - 1, fields.last() + seq![0x20u8] + trim(line)), false))
        }
    } else if first_index_of(line, 0x3au8) is Some {
        Ok((fields.push(line), false))
    } else {
        Err(ErrorModel::MalformedField(line))
    }
}

pub open spec fn fold_run(lines: Seq<Seq<u8>>) -> Result<(Seq<Seq<u8>>, bool), ErrorModel>
    decreases lines.len(),
{
    if lines.len() == 0 {
        Ok((seq![], false))
    } else {
        match fold_run(lines.drop_last()) {
            Ok(st) => fold_step(st, lines.last()),
            Err(e) => Err(e),
        }
    }
}

/// The logical lines of the first paragraph of `lines`: each field line with
/// its continuation lines appended, each after one space and trimmed.
pub open spec fn logical_lines(lines: Seq<Seq<u8>>) -> Result<Seq<Seq<u8>>, ErrorModel> {
    match fold_run(lines) {
        Ok(st) => Ok(st.0),
        Err(e) => Err(e),
    }
}

proof fn lemma_fold_run_stops(lines: Seq<Seq<u8>>, i: int)
    requires
        0 <= i < lines.len(),
        fold_run(lines.take(i + 1)) is Err,
    ensures
        fold_run(lines) == fold_run(lines.take(i + 1)),
    decreases lines.len() - i,
{
    if i + 1 < lines.len() {
        assert(lines.take(i + 2).drop_last() =~= lines.take(i + 1));
        lemma_fold_run_stops(lines, i + 1);
    } else {
        assert(lines.take(i + 1) =~= lines);
    }
}

/// Appends a continuation to the last logical line.
fn fold_into_last(fields: &mut Vec<Vec<u8>>, cont: &[u8])
    requires
        old(fields)@.len() > 0,
    ensures
        final(fields).deep_view() == old(fields).deep_view().update(
            old(fields)@.len() - 1,
            old(fields).deep_view().last() + seq![0x20u8] + trim(cont@),
        ),
{
    let ghost before = fields.deep_view();
    let mut last = fields.pop().unwrap();
    assert(last@ == before.last());
    last.push(0x20u8);
    let t = trim_bytes(cont);
    let mut i: usize = 0;
    let ghost head = last@;
    while i < t.len()
        invariant
            i <= t@.len(),
            last@ == head + t@.take(i as int),
        decreases t@.len() - i,
    {
        last.push(t[i]);
        i = i + 1;
        assert(last@ =~= head + t@.take(i as int));
    }
    assert(t@.take(t@.len() as int) =~= t@);
    assert(last@ =~= before.last() + seq![0x20u8] + trim(cont@));
    assert(fields.deep_view() =~= before.drop_last());
    push_bytes(fields, last);
    assert(fields.deep_view() =~= before.update(before.len() - 1, before.last() + seq![0x20u8] + trim(cont@)));
}

/// Splits the text of a control document into logical lines. A line that
/// begins with a blank continues the previous field; the first blank line
/// ends the document.
pub fn tokenize(lines: &Vec<Vec<u8>>) -> (r: Result<Vec<Vec<u8>>, ReleaseError>)
    ensures
        match logical_lines(lines.deep_view()) {
            Ok(ls) => r is Ok && r->Ok_0.deep_view() == ls,
            Err(e) => r is Err && r->Err_0@ == e,
        },
{
    let mut fields: Vec<Vec<u8>> = Vec::new();
    let mut ended = false;
    let mut i: usize = 0;
    assert(fields.deep_view() =~= seq![]);
    while i < lines.len()
        invariant
            i <= lines@.len(),
            fold_run(lines.deep_view().take(i as int)) == Ok::<(Seq<Seq<u8>>, bool), ErrorModel>(
                (fields.deep_view(), ended),
            ),
        decreases lines@.len() - i,
    {
        proof {
            assert(lines.deep_view().take(i + 1).drop_last() =~= lines.deep_view().take(i as int));
        }
        let line = lines[i].as_slice();
        assert(line@ == lines.deep_view()[i as int]);
        if !ended {
            let t = trim_bytes(line);
            if t.len() == 0 {
                ended = true;
            } else if blank_byte(line[0]) {
                if fields.len() == 0 {
                    proof {
                        lemma_fold_run_stops(lines.deep_view(), i as int);
                    }
                    let r = copy_range(line, 0, line.len());
                    assert(r@ =~= line@);
                    return Err(ReleaseError::MalformedFieldError { line: r });
                }
                fold_into_last(&mut fields, line);
            } else if find_byte(line, 0x3au8).is_some() {
                push_bytes(&mut fields, copy_range(line, 0, line.len()));
                assert(line@.subrange(0, line@.len() as int) =~= line@);
            } else {
                proof {
                    lemma_fold_run_stops(lines.deep_view(), i as int);
                }
                let r = copy_range(line, 0, line.len());
                assert(r@ =~= line@);
                return Err(ReleaseError::MalformedFieldError { line: r });
            }
        }
        i = i + 1;
    }
    assert(lines.deep_view().take(i as int) =~= lines.deep_view());
    Ok(fields)
}

} // verus!
