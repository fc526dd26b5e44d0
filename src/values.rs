use vstd::prelude::*;
use vstd::string::StringSliceAdditionalSpecFns;
use crate::text::copy_range;
use crate::decimal::DecimalValidationError;

verus! {

/// Failure to turn a stored value string into a typed value.
#[derive(Debug)]
pub enum DataConversionError {
    ValueStringHadUnexpectedFormat(String),
    ParseError { value: String, typ: String },
    UnrecognizedType { value: String, typ: String },
}

pub const DECIMAL_TYPE: &'static str = "http://www.w3.org/2001/XMLSchema#decimal";

impl DataConversionError {
    /// A decimal literal that does not read is a parse error of the decimal type.
    pub fn from_decimal_error(e: DecimalValidationError) -> (r: DataConversionError)
        ensures
            r matches DataConversionError::ParseError { value, typ } && value@ == e.value@ && typ@
                == DECIMAL_TYPE@,
    {
        DataConversionError::ParseError { value: e.value, typ: DECIMAL_TYPE.to_owned() }
    }
}

/// A value string split into its text and either its language tag or its
/// type, as bytes.
#[derive(Debug, PartialEq, Eq)]
pub enum LangOrType {
    Lang(Vec<u8>, Vec<u8>),
    Type(Vec<u8>, Vec<u8>),
}

pub const QUOTE: u8 = 39;

pub const CARET: u8 = 94;

pub const AT: u8 = 64;

/// The last position below `end` that holds `c`, or -1.
pub open spec fn last_index_before(b: Seq<u8>, c: u8, end: int) -> int
    decreases end,
{
    if end <= 0 {
        -1
    } else if b[end - 1] == c {
        end - 1
    } else {
        last_index_before(b, c, end - 1)
    }
}

/// How a value string splits: `Some((true, text, lang))` for a language
/// string, `Some((false, text, type))` for a typed value, `None` for a string
/// of neither form.
///
/// A string that ends in `'` is `text^^'type'` (the type between the last
/// two quotes) or `text@'lang'` (the tag kept with its quotes); any other is
/// `text@lang`, split at its last `@`.
pub open spec fn split_value_string(b: Seq<u8>) -> Option<(bool, Seq<u8>, Seq<u8>)> {
    let n = b.len() as int;
    if n == 0 {
        None
    } else if b[n - 1] == QUOTE {
        let pos = last_index_before(b, QUOTE, n - 1);
        if pos <= 0 {
            None
        } else if b[pos - 1] == CARET {
            if pos == 1 || b[pos - 2] != CARET {
                None
            } else {
                Some((false, b.subrange(0, pos - 2), b.subrange(pos + 1, n - 1)))
            }
        } else if b[pos - 1] != AT {
            None
        } else {
            Some((true, b.subrange(0, pos - 1), b.subrange(pos, n)))
        }
    } else {
        let pos = last_index_before(b, AT, n);
        if pos < 0 {
            None
        } else {
            Some((true, b.subrange(0, pos), b.subrange(pos + 1, n)))
        }
    }
}

proof fn lemma_last_index_range(b: Seq<u8>, c: u8, end: int)
    requires
        0 <= end <= b.len(),
    ensures
        -1 <= last_index_before(b, c, end) < end,
        last_index_before(b, c, end) >= 0 ==> b[last_index_before(b, c, end)] == c,
    decreases end,
{
    if end > 0 && b[end - 1] != c {
        lemma_last_index_range(b, c, end - 1);
    }
}

fn last_index_of(b: &[u8], c: u8, end: usize) -> (r: Option<usize>)
    requires
        end <= b@.len(),
    ensures
        match r {
            Some(p) => p as int == last_index_before(b@, c, end as int),
            None => last_index_before(b@, c, end as int) == -1,
        },
{
    let mut k: usize = end;
    while k > 0
        invariant
            k <= end <= b@.len(),
            last_index_before(b@, c, end as int) == last_index_before(b@, c, k as int),
        decreases k,
    {
        if b[k - 1] == c {
            return Some(k - 1);
        }
        k = k - 1;
    }
    None
}

fn unexpected_format(s: &str) -> (e: DataConversionError)
    ensures
        e matches DataConversionError::ValueStringHadUnexpectedFormat(t) && t@ == s@,
{
    DataConversionError::ValueStringHadUnexpectedFormat(s.to_owned())
}

/// Splits a stored value string into its text and its language tag or type.
/// A string of neither form gives `ValueStringHadUnexpectedFormat` with the
/// whole string.
pub fn value_string_to_slices(s: &str) -> (r: Result<LangOrType, DataConversionError>)
    ensures
        match r {
            Ok(LangOrType::Lang(text, lang)) => split_value_string(s.spec_bytes()) == Some(
                (true, text@, lang@),
            ),
            Ok(LangOrType::Type(text, typ)) => split_value_string(s.spec_bytes()) == Some(
                (false, text@, typ@),
            ),
            Err(e) => split_value_string(s.spec_bytes()) is None && (e matches DataConversionError::ValueStringHadUnexpectedFormat(t) && t@ == s@),
        },
{
    let b = s.as_bytes();
    let n = b.len();
    if n == 0 {
        return Err(unexpected_format(s));
    }
    if b[n - 1] == QUOTE {
        let found = last_index_of(b, QUOTE, n - 1);
        proof {
            lemma_last_index_range(b@, QUOTE, n - 1);
        }
        let pos = match found {
            None => {
                return Err(unexpected_format(s));
            },
            Some(p) => p,
        };
        if pos == 0 {
            return Err(unexpected_format(s));
        }
        if b[pos - 1] == CARET {
            if pos == 1 || b[pos - 2] != CARET {
                return Err(unexpected_format(s));
            }
            Ok(LangOrType::Type(copy_range(b, 0, pos - 2), copy_range(b, pos + 1, n - 1)))
        } else {
            if b[pos - 1] != AT {
                return Err(unexpected_format(s));
            }
            Ok(LangOrType::Lang(copy_range(b, 0, pos - 1), copy_range(b, pos, n)))
        }
    } else {
        let found = last_index_of(b, AT, n);
        proof {
            lemma_last_index_range(b@, AT, n as int);
        }
        match found {
            None => Err(unexpected_format(s)),
            Some(pos) => Ok(LangOrType::Lang(copy_range(b, 0, pos), copy_range(b, pos + 1, n))),
        }
    }
}

} // verus!
