use vstd::prelude::*;
use vstd::string::StringSliceAdditionalSpecFns;
use crate::layer_id::{LayerId, is_hex_digit, is_name, law_name_round_trip, name_bytes, name_from_bytes, name_id, name_to_bytes};
use vstd::utf8::encode_utf8;
use crate::text::{all_ascii, ascii_chars, ascii_to_string, bytes_equal, copy_range, find_from, index_of_from};

verus! {

broadcast use vstd::array::group_array_axioms;

/// Where the conversion of one layer stands, as the status log records it.
#[derive(Debug, Clone, Copy, PartialEq, Eq, Structural)]
pub enum ConversionStatus {
    Error,
    Completed,
    Started,
}

/// The word that the status log writes for a status.
pub open spec fn status_word(s: ConversionStatus) -> Seq<u8> {
    match s {
        ConversionStatus::Error => seq![69u8, 114, 114, 111, 114],
        ConversionStatus::Completed => seq![67u8, 111, 109, 112, 108, 101, 116, 101, 100],
        ConversionStatus::Started => seq![83u8, 116, 97, 114, 116, 101, 100],
    }
}

/// The status that a word names, if any.
pub open spec fn status_of_word(w: Seq<u8>) -> Option<ConversionStatus> {
    if w == status_word(ConversionStatus::Error) {
        Some(ConversionStatus::Error)
    } else if w == status_word(ConversionStatus::Completed) {
        Some(ConversionStatus::Completed)
    } else if w == status_word(ConversionStatus::Started) {
        Some(ConversionStatus::Started)
    } else {
        None
    }
}

pub const SPACE: u8 = 32;

pub const NEWLINE: u8 = 10;

/// How a status log line reads: the layer name, a space, the status word,
/// and anything after a further space, which is ignored.
pub open spec fn parse_status_line_spec(b: Seq<u8>) -> Option<(LayerId, ConversionStatus)> {
    let p = index_of_from(b, SPACE, 0);
    let q = index_of_from(b, SPACE, p + 1);
    if p >= b.len() || !is_name(b.subrange(0, p)) {
        None
    } else {
        match status_of_word(b.subrange(p + 1, q)) {
            None => None,
            Some(st) => Some((name_id(b.subrange(0, p)), st)),
        }
    }
}

/// The line that the status log gets for a layer and a status.
pub open spec fn status_line_bytes(id: LayerId, s: ConversionStatus) -> Seq<u8> {
    name_bytes(id) + seq![SPACE] + status_word(s) + seq![NEWLINE]
}

impl ConversionStatus {
    pub fn word(&self) -> (r: Vec<u8>)
        ensures
            r@ == status_word(*self),
    {
        match self {
            ConversionStatus::Error => vec![69u8, 114, 114, 111, 114],
            ConversionStatus::Completed => vec![67u8, 111, 109, 112, 108, 101, 116, 101, 100],
            ConversionStatus::Started => vec![83u8, 116, 97, 114, 116, 101, 100],
        }
    }

    /// The status's word: `Error`, `Completed` or `Started`.
    pub fn to_string(&self) -> (r: String)
        ensures
            r@ == ascii_chars(status_word(*self)),
    {
        let w = self.word();
        proof {
            assert(all_ascii(w@));
        }
        ascii_to_string(w)
    }

    /// The status that a word names, if any.
    pub fn from_bytes(w: &[u8]) -> (r: Option<ConversionStatus>)
        ensures
            r == status_of_word(w@),
    {
        let e = ConversionStatus::Error.word();
        let c = ConversionStatus::Completed.word();
        let s = ConversionStatus::Started.word();
        if bytes_equal(w, e.as_slice()) {
            Some(ConversionStatus::Error)
        } else if bytes_equal(w, c.as_slice()) {
            Some(ConversionStatus::Completed)
        } else if bytes_equal(w, s.as_slice()) {
            Some(ConversionStatus::Started)
        } else {
            None
        }
    }

    /// The status that a word names, if any.
    pub fn from_str(s: &str) -> (r: Option<ConversionStatus>)
        ensures
            r == status_of_word(s.spec_bytes()),
    {
        ConversionStatus::from_bytes(s.as_bytes())
    }
}

/// Reads one line of the status log (without its line break).
pub fn parse_status_line(line: &str) -> (r: Option<(LayerId, ConversionStatus)>)
    ensures
        r == parse_status_line_spec(line.spec_bytes()),
{
    let b = line.as_bytes();
    let p = find_from(b, SPACE, 0);
    if p >= b.len() {
        return None;
    }
    let q = find_from(b, SPACE, p + 1);
    let name = copy_range(b, 0, p);
    let word = copy_range(b, p + 1, q);
    match name_from_bytes(name.as_slice()) {
        None => None,
        Some(id) => match ConversionStatus::from_bytes(word.as_slice()) {
            None => None,
            Some(st) => Some((id, st)),
        },
    }
}

/// The line that records a status for a layer, line break included.
pub fn status_line(id: LayerId, s: ConversionStatus) -> (r: String)
    ensures
        r@ == ascii_chars(status_line_bytes(id, s)),
{
    let mut b = name_to_bytes(id);
    b.push(SPACE);
    let mut w = s.word();
    b.append(&mut w);
    b.push(NEWLINE);
    proof {
        assert(b@ =~= status_line_bytes(id, s));
        assert forall|i: int| 0 <= i < b@.len() implies #[trigger] b@[i] < 128 by {
            if i < 40 {
                assert(b@[i] == name_bytes(id)[i]);
            }
        }
    }
    ascii_to_string(b)
}

/// The status that a list of log records gives a layer: the last record for
/// it, if any.
pub open spec fn last_status(records: Seq<(LayerId, ConversionStatus)>, id: LayerId) -> Option<ConversionStatus>
    decreases records.len(),
{
    if records.len() == 0 {
        None
    } else if records.last().0 == id {
        Some(records.last().1)
    } else {
        last_status(records.drop_last(), id)
    }
}

pub fn same_layer(a: &LayerId, b: &LayerId) -> (r: bool)
    ensures
        r == (*a == *b),
{
    let r = a[0] == b[0] && a[1] == b[1] && a[2] == b[2] && a[3] == b[3] && a[4] == b[4];
    proof {
        if r {
            assert(*a =~= *b);
        }
    }
    r
}

/// The status recorded last for a layer, if any.
pub fn lookup_status(records: &Vec<(LayerId, ConversionStatus)>, id: &LayerId) -> (r: Option<ConversionStatus>)
    ensures
        r == last_status(records@, *id),
{
    let mut k: usize = records.len();
    proof {
        assert(records@.take(k as int) == records@);
    }
    while k > 0
        invariant
            k <= records@.len(),
            last_status(records@, *id) == last_status(records@.take(k as int), *id),
        decreases k,
    {
        proof {
            assert(records@.take(k as int).drop_last() == records@.take(k - 1));
        }
        if same_layer(&records[k - 1].0, id) {
            return Some(records[k - 1].1);
        }
        k = k - 1;
    }
    None
}

/// Reads the lines of a status log. On a line that does not read, gives its
/// position.
pub fn parse_status_log(lines: &Vec<String>) -> (r: Result<Vec<(LayerId, ConversionStatus)>, usize>)
    ensures
        match r {
            Ok(v) => v.len() == lines.len() && forall|i: int|
                0 <= i < lines.len() ==> parse_status_line_spec(encode_utf8(#[trigger] lines[i]@))
                    == Some(v[i]),
            Err(k) => k < lines.len() && parse_status_line_spec(encode_utf8(lines[k as int]@))
                is None && forall|i: int|
                0 <= i < k ==> parse_status_line_spec(encode_utf8(#[trigger] lines[i]@)) is Some,
        },
{
    let mut v: Vec<(LayerId, ConversionStatus)> = Vec::new();
    let mut i: usize = 0;
    while i < lines.len()
        invariant
            i <= lines.len(),
            v.len() == i,
            forall|j: int|
                0 <= j < i ==> parse_status_line_spec(encode_utf8(#[trigger] lines[j]@)) == Some(v[j]),
        decreases lines.len() - i,
    {
        match parse_status_line(lines[i].as_str()) {
            None => {
                return Err(i);
            },
            Some(rec) => {
                v.push(rec);
            },
        }
        i = i + 1;
    }
    Ok(v)
}

proof fn lemma_index_of_from_at(b: Seq<u8>, c: u8, from: int, p: int)
    requires
        0 <= from <= p <= b.len(),
        forall|x: int| from <= x < p ==> b[x] != c,
        p < b.len() ==> b[p] == c,
    ensures
        index_of_from(b, c, from) == p,
    decreases p - from,
{
    if from < p {
        lemma_index_of_from_at(b, c, from + 1, p);
    }
}

/// A status line, without its line break, reads back as the layer and the
/// status it was written for: what one run appends to the status log, the
/// next run finds.
pub proof fn law_status_line_round_trip(id: LayerId, st: ConversionStatus)
    ensures
        ({
            let line = status_line_bytes(id, st);
            parse_status_line_spec(line.subrange(0, line.len() - 1)) == Some((id, st))
        }),
{
    let line = status_line_bytes(id, st);
    let b = line.subrange(0, line.len() - 1);
    let w = status_word(st);
    law_name_round_trip(id);
    assert(b == name_bytes(id) + seq![SPACE] + w);
    assert forall|x: int| 0 <= x < 40 implies b[x] != SPACE by {
        assert(b[x] == name_bytes(id)[x]);
        assert(is_hex_digit(name_bytes(id)[x]));
    }
    lemma_index_of_from_at(b, SPACE, 0, 40);
    assert forall|x: int| 41 <= x < b.len() implies b[x] != SPACE by {
        assert(b[x] == w[x - 41]);
    }
    lemma_index_of_from_at(b, SPACE, 41, b.len() as int);
    assert(b.subrange(0, 40) == name_bytes(id));
    assert(b.subrange(41, b.len() as int) == w);
    assert(status_of_word(w) == Some(st));
}

} // verus!
