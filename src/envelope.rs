//! The clear-sign envelope of an `InRelease` file, read as a finite-state
//! machine over the input lines.

use vstd::prelude::*;
use crate::error::{EnvelopeFault, ReleaseError};
use crate::keywords::{
    begin_signature, begin_signature_spec, begin_signed, begin_signed_spec, dash_escape,
    dash_escape_spec, end_signature, end_signature_spec, hash_header, hash_header_spec,
};
use crate::text::{bytes_eq, copy_range, has_prefix, push_bytes, starts_with, trim, trim_bytes};

verus! {

/// Where the reader stands in the envelope.
#[derive(Debug, Clone, Copy, PartialEq, Eq, Structural)]
pub enum ArmorState {
    /// No line read yet.
    Before,
    /// After the start marker, expecting the `Hash:` line.
    InHashHeader,
    /// After the `Hash:` line, expecting one blank line.
    InBlank,
    /// Inside the signed text.
    InBody,
    /// Inside the signature block.
    InSignature,
    /// After the end marker of the signature.
    Done,
    /// The input carries no envelope; every line is text.
    Plain,
}

/// The abstract content of an envelope reader.
pub struct ArmorModel {
    pub state: ArmorState,
    pub hash: Option<Seq<u8>>,
    pub interior: Seq<Seq<u8>>,
    pub signature: Seq<Seq<u8>>,
}

pub open spec fn initial_armor() -> ArmorModel {
    ArmorModel { state: ArmorState::Before, hash: None, interior: seq![], signature: seq![] }
}

pub open spec fn is_signature_marker(line: Seq<u8>) -> bool {
    line == begin_signature_spec() || line == end_signature_spec()
}

/// A text line with its dash-escape prefix `- ` removed.
pub open spec fn unescape(line: Seq<u8>) -> Seq<u8> {
    if has_prefix(line, dash_escape_spec()) {
        line.subrange(2, line.len() as int)
    } else {
        line
    }
}

/// A text line dash-escaped for a clear-signed message: a line that begins
/// with `-` gets the prefix `- `.
pub open spec fn escape(line: Seq<u8>) -> Seq<u8> {
    if line.len() > 0 && line[0] == 0x2du8 {
        dash_escape_spec() + line
    } else {
        line
    }
}

/// One transition of the envelope reader.
pub open spec fn armor_step(m: ArmorModel, line: Seq<u8>) -> Result<ArmorModel, EnvelopeFault> {
    match m.state {
        ArmorState::Before => {
            if line == begin_signed_spec() {
                Ok(ArmorModel { state: ArmorState::InHashHeader, ..m })
            } else if is_signature_marker(line) {
                Err(EnvelopeFault::UnexpectedSignature)
            } else {
                Ok(ArmorModel { state: ArmorState::Plain, interior: m.interior.push(line), ..m })
            }
        },
        ArmorState::Plain => {
            if is_signature_marker(line) {
                Err(EnvelopeFault::UnexpectedSignature)
            } else {
                Ok(ArmorModel { interior: m.interior.push(line), ..m })
            }
        },
        ArmorState::InHashHeader => {
            if has_prefix(line, hash_header_spec()) {
                Ok(
                    ArmorModel {
                        state: ArmorState::InBlank,
                        hash: Some(trim(line.subrange(5, line.len() as int))),
                        ..m
                    },
                )
            } else {
                Err(EnvelopeFault::MissingHashHeader)
            }
        },
        ArmorState::InBlank => {
            if trim(line).len() == 0 {
                Ok(ArmorModel { state: ArmorState::InBody, ..m })
            } else {
                Err(EnvelopeFault::MissingBlankLine)
            }
        },
        ArmorState::InBody => {
            if line == begin_signature_spec() {
                Ok(
                    ArmorModel {
                        state: ArmorState::InSignature,
                        signature: m.signature.push(line),
                        ..m
                    },
                )
            } else if line == end_signature_spec() {
                Err(EnvelopeFault::UnexpectedSignature)
            } else {
                Ok(ArmorModel { interior: m.interior.push(unescape(line)), ..m })
            }
        },
        ArmorState::InSignature => {
            if line == end_signature_spec() {
                Ok(ArmorModel { state: ArmorState::Done, signature: m.signature.push(line), ..m })
            } else {
                Ok(ArmorModel { signature: m.signature.push(line), ..m })
            }
        },
        ArmorState::Done => Ok(m),
    }
}

/// The reader after all of `lines`, or the first fault.
pub open spec fn armor_run(lines: Seq<Seq<u8>>) -> Result<ArmorModel, EnvelopeFault>
    decreases lines.len(),
{
    if lines.len() == 0 {
        Ok(initial_armor())
    } else {
        match armor_run(lines.drop_last()) {
            Ok(m) => armor_step(m, lines.last()),
            Err(f) => Err(f),
        }
    }
}

/// Whether the input may end in this state.
pub open spec fn may_end(s: ArmorState) -> bool {
    s == ArmorState::Before || s == ArmorState::Plain || s == ArmorState::Done
}

/// The envelope of a whole input: the reader after its last line, if the
/// input may end there.
pub open spec fn strip_spec(lines: Seq<Seq<u8>>) -> Result<ArmorModel, EnvelopeFault> {
    match armor_run(lines) {
        Ok(m) => if may_end(m.state) {
            Ok(m)
        } else {
            Err(EnvelopeFault::UnexpectedEnd)
        },
        Err(f) => Err(f),
    }
}

pub open spec fn opt_view(o: Option<Vec<u8>>) -> Option<Seq<u8>> {
    match o {
        Some(v) => Some(v@),
        None => None,
    }
}

/// What the envelope held: the signed text with dash-escaping undone, the
/// digest algorithm that the `Hash:` line declares, and the signature block.
/// For an input without envelope, `interior` is every line, and `hash` and
/// `signature` are empty.
#[derive(Debug)]
pub struct ClearSigned {
    pub state: ArmorState,
    pub hash: Option<Vec<u8>>,
    pub interior: Vec<Vec<u8>>,
    pub signature: Vec<Vec<u8>>,
}

impl View for ClearSigned {
    type V = ArmorModel;

    open spec fn view(&self) -> ArmorModel {
        ArmorModel {
            state: self.state,
            hash: opt_view(self.hash),
            interior: self.interior.deep_view(),
            signature: self.signature.deep_view(),
        }
    }
}

fn is_signature_marker_line(line: &[u8]) -> (r: bool)
    ensures
        r == is_signature_marker(line@),
{
    bytes_eq(line, begin_signature().as_slice()) || bytes_eq(line, end_signature().as_slice())
}

/// A text line with its dash-escape prefix `- ` removed.
pub fn unescape_line(line: &[u8]) -> (r: Vec<u8>)
    ensures
        r@ == unescape(line@),
{
    if starts_with(line, dash_escape().as_slice()) {
        copy_range(line, 2, line.len())
    } else {
        copy_range(line, 0, line.len())
    }
}

impl ClearSigned {
    /// A reader that has seen no line.
    pub fn new() -> (r: ClearSigned)
        ensures
            r@ == initial_armor(),
    {
        let r = ClearSigned { state: ArmorState::Before, hash: None, interior: Vec::new(), signature: Vec::new() };
        assert(r.interior.deep_view() =~= seq![]);
        assert(r.signature.deep_view() =~= seq![]);
        r
    }

    /// Feeds one line to the reader.
    pub fn step(&mut self, line: &[u8]) -> (r: Result<(), EnvelopeFault>)
        ensures
            match armor_step(old(self)@, line@) {
                Ok(m) => r is Ok && final(self)@ == m,
                Err(f) => r == Err::<(), EnvelopeFault>(f),
            },
    {
        let ghost line_copy = line@;
        assert(line@.subrange(0, line@.len() as int) =~= line@);
        match self.state {
            ArmorState::Before => {
                if bytes_eq(line, begin_signed().as_slice()) {
                    self.state = ArmorState::InHashHeader;
                    Ok(())
                } else if is_signature_marker_line(line) {
                    Err(EnvelopeFault::UnexpectedSignature)
                } else {
                    self.state = ArmorState::Plain;
                    push_bytes(&mut self.interior, copy_range(line, 0, line.len()));
                    Ok(())
                }
            },
            ArmorState::Plain => {
                if is_signature_marker_line(line) {
                    Err(EnvelopeFault::UnexpectedSignature)
                } else {
                    push_bytes(&mut self.interior, copy_range(line, 0, line.len()));
                    Ok(())
                }
            },
            ArmorState::InHashHeader => {
                if starts_with(line, hash_header().as_slice()) {
                    let rest = copy_range(line, 5, line.len());
                    let h = trim_bytes(rest.as_slice());
                    self.state = ArmorState::InBlank;
                    self.hash = Some(h);
                    Ok(())
                } else {
                    Err(EnvelopeFault::MissingHashHeader)
                }
            },
            ArmorState::InBlank => {
                let t = trim_bytes(line);
                if t.len() == 0 {
                    self.state = ArmorState::InBody;
                    Ok(())
                } else {
                    Err(EnvelopeFault::MissingBlankLine)
                }
            },
            ArmorState::InBody => {
                if bytes_eq(line, begin_signature().as_slice()) {
                    self.state = ArmorState::InSignature;
                    push_bytes(&mut self.signature, copy_range(line, 0, line.len()));
                    Ok(())
                } else if bytes_eq(line, end_signature().as_slice()) {
                    Err(EnvelopeFault::UnexpectedSignature)
                } else {
                    push_bytes(&mut self.interior, unescape_line(line));
                    Ok(())
                }
            },
            ArmorState::InSignature => {
                if bytes_eq(line, end_signature().as_slice()) {
                    self.state = ArmorState::Done;
                }
                push_bytes(&mut self.signature, copy_range(line, 0, line.len()));
                Ok(())
            },
            ArmorState::Done => Ok(()),
        }
    }
}

/// Removes the clear-sign envelope from the lines of an `InRelease` file, or
/// passes the lines of a plain `Release` file through.
pub fn strip_envelope(lines: &Vec<Vec<u8>>) -> (r: Result<ClearSigned, ReleaseError>)
    ensures
        match strip_spec(lines.deep_view()) {
            Ok(m) => r is Ok && r->Ok_0@ == m,
            Err(f) => r == Err::<ClearSigned, ReleaseError>(ReleaseError::EnvelopeError { fault: f }),
        },
{
    let mut reader = ClearSigned::new();
    let mut i: usize = 0;
    while i < lines.len()
        invariant
            i <= lines@.len(),
            armor_run(lines.deep_view().take(i as int)) == Ok::<ArmorModel, EnvelopeFault>(reader@),
        decreases lines@.len() - i,
    {
        proof {
            assert(lines.deep_view().take(i + 1).drop_last() =~= lines.deep_view().take(i as int));
        }
        let line = lines[i].as_slice();
        assert(line@ == lines.deep_view()[i as int]);
        match reader.step(line) {
            Ok(()) => {},
            Err(f) => {
                proof {
                    lemma_armor_run_stops(lines.deep_view(), i as int);
                }
                return Err(ReleaseError::EnvelopeError { fault: f });
            },
        }
        i = i + 1;
    }
    assert(lines.deep_view().take(i as int) =~= lines.deep_view());
    match reader.state {
        ArmorState::Before | ArmorState::Plain | ArmorState::Done => Ok(reader),
        _ => Err(ReleaseError::EnvelopeError { fault: EnvelopeFault::UnexpectedEnd }),
    }
}

/// A fault stays a fault whatever follows.
proof fn lemma_armor_run_stops(lines: Seq<Seq<u8>>, i: int)
    requires
        0 <= i < lines.len(),
        armor_run(lines.take(i + 1)) is Err,
    ensures
        armor_run(lines) == armor_run(lines.take(i + 1)),
    decreases lines.len() - i,
{
    if i + 1 < lines.len() {
        assert(lines.take(i + 2).drop_last() =~= lines.take(i + 1));
        lemma_armor_run_stops(lines, i + 1);
    } else {
        assert(lines.take(i + 1) =~= lines);
    }
}

} // verus!
