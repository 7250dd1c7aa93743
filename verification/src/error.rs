//! Errors produced by this library, with their kinds, context lines and
//! messages.

use vstd::prelude::*;
use vstd::string::{to_string_from_display_ensures, StringExecFns};
use multi_trait::Error as MultitraitError;

use crate::text::{decimal, lower_hex, push_digits, push_signed_decimal, signed_decimal};

verus! {

#[verifier::external_type_specification]
#[verifier::external_body]
pub struct ExMultitraitError(MultitraitError);

/// Errors produced by the multi-codec crate.
#[derive(Debug)]
#[non_exhaustive]
pub enum Error {
    /// An encoding or decoding operation of the multi-trait crate failed.
    Multitrait(MultitraitError),
    /// The provided name does not match any known multicodec identifier.
    InvalidName {
        /// The invalid codec name that was provided
        name: String,
    },
    /// The provided numeric code does not correspond to any known multicodec.
    InvalidValue {
        /// The invalid code value that was provided
        code: u64,
    },
    /// A negative value was provided for a signed integer conversion.
    NegativeValue {
        /// The negative value that was provided
        value: i64,
    },
}

/// The short identifier of an error's kind.
pub open spec fn kind_text(e: Error) -> Seq<char> {
    match e {
        Error::Multitrait(_) => "Multitrait"@,
        Error::InvalidName { .. } => "InvalidName"@,
        Error::InvalidValue { .. } => "InvalidValue"@,
        Error::NegativeValue { .. } => "NegativeValue"@,
    }
}

/// The text that the context of every multi-trait error starts with.
pub open spec fn multitrait_context_prefix() -> Seq<char> {
    "Multitrait error: "@
}

/// The context line of an invalid-name error.
pub open spec fn invalid_name_context(name: Seq<char>) -> Seq<char> {
    "Invalid name: '"@ + name + "'"@
}

/// The context line of an invalid-value error: the code in hex and decimal.
pub open spec fn invalid_value_context(code: u64) -> Seq<char> {
    "Invalid code: 0x"@ + lower_hex(code as nat) + " ("@ + decimal(code as nat) + ")"@
}

/// The context line of a negative-value error.
pub open spec fn negative_value_context(value: i64) -> Seq<char> {
    "Negative value: "@ + signed_decimal(value as int)
}

/// The message of an invalid-name error.
pub open spec fn invalid_name_message(name: Seq<char>) -> Seq<char> {
    "Invalid multicodec name: '"@ + name + "'\nThe name '"@ + name
        + "' is not a recognized multicodec identifier.\nSee https://github.com/multiformats/multicodec/blob/master/table.csv for valid names."@
}

/// The message of an invalid-value error.
pub open spec fn invalid_value_message(code: u64) -> Seq<char> {
    "Invalid multicodec code: 0x"@ + lower_hex(code as nat) + " ("@ + decimal(code as nat)
        + ")\nThe code 0x"@ + lower_hex(code as nat)
        + " is not a recognized multicodec value.\nSee https://github.com/multiformats/multicodec/blob/master/table.csv for valid codes."@
}

/// The message of a negative-value error.
pub open spec fn negative_value_message(value: i64) -> Seq<char> {
    "Cannot convert negative value "@ + signed_decimal(value as int)
        + " to multicodec\nCodec codes must be non-negative integers. The value "@
        + signed_decimal(value as int)
        + " is negative.\nUse a non-negative value or an unsigned integer type (u8, u16, u32, u64)."@
}

/// `text` is the display text of the multi-trait error `e`, as its
/// `to_string` produces it.
pub open spec fn multitrait_text(e: MultitraitError, text: String) -> bool {
    to_string_from_display_ensures::<MultitraitError>(&e, text)
}

impl Error {
    /// Create an InvalidName error with the given name.
    pub fn invalid_name(name: &str) -> (res: Self)
        ensures
            res matches Error::InvalidName { name: n } && n@ == name@,
    {
        Error::InvalidName { name: name.to_owned() }
    }

    /// Create an InvalidValue error with the given code.
    pub fn invalid_value(code: u64) -> (res: Self)
        ensures
            res == (Error::InvalidValue { code }),
    {
        Error::InvalidValue { code }
    }

    /// Create a NegativeValue error with the given value.
    pub fn negative_value(value: i64) -> (res: Self)
        ensures
            res == (Error::NegativeValue { value }),
    {
        Error::NegativeValue { value }
    }

    /// Get the error kind as a string.
    pub fn kind(&self) -> (res: &str)
        ensures
            res@ == kind_text(*self),
    {
        match self {
            Error::Multitrait(_) => "Multitrait",
            Error::InvalidName { .. } => "InvalidName",
            Error::InvalidValue { .. } => "InvalidValue",
            Error::NegativeValue { .. } => "NegativeValue",
        }
    }

    /// Get additional context about the error.
    pub fn context(&self) -> (res: String)
        ensures
            match *self {
                Error::Multitrait(e) => exists|m: String|
                    multitrait_text(e, m) && res@ == multitrait_context_prefix() + m@,
                Error::InvalidName { name } => res@ == invalid_name_context(name@),
                Error::InvalidValue { code } => res@ == invalid_value_context(code),
                Error::NegativeValue { value } => res@ == negative_value_context(value),
            },
    {
        match self {
            Error::Multitrait(e) => {
                let mut s = "Multitrait error: ".to_owned();
                let m = e.to_string();
                s.append(m.as_str());
                assert(multitrait_text(*e, m));
                s
            },
            Error::InvalidName { name } => {
                let mut s = "Invalid name: '".to_owned();
                s.append(name.as_str());
                s.append("'");
                s
            },
            Error::InvalidValue { code } => {
                let mut s = "Invalid code: 0x".to_owned();
                push_digits(&mut s, *code, 16, false);
                s.append(" (");
                push_digits(&mut s, *code, 10, false);
                s.append(")");
                s
            },
            Error::NegativeValue { value } => {
                let mut s = "Negative value: ".to_owned();
                push_signed_decimal(&mut s, *value);
                s
            },
        }
    }
}

impl Error {
    /// The message of the error, as it is displayed. A multi-trait error shows
    /// the text of the error it carries.
    pub fn to_string(&self) -> (res: String)
        ensures
            match *self {
                Error::Multitrait(e) => multitrait_text(e, res),
                Error::InvalidName { name } => res@ == invalid_name_message(name@),
                Error::InvalidValue { code } => res@ == invalid_value_message(code),
                Error::NegativeValue { value } => res@ == negative_value_message(value),
            },
    {
        match self {
            Error::Multitrait(e) => e.to_string(),
            Error::InvalidName { name } => {
                let mut s = "Invalid multicodec name: '".to_owned();
                s.append(name.as_str());
                s.append("'\nThe name '");
                s.append(name.as_str());
                s.append(
                    "' is not a recognized multicodec identifier.\nSee https://github.com/multiformats/multicodec/blob/master/table.csv for valid names.",
                );
                s
            },
            Error::InvalidValue { code } => {
                let mut s = "Invalid multicodec code: 0x".to_owned();
                push_digits(&mut s, *code, 16, false);
                s.append(" (");
                push_digits(&mut s, *code, 10, false);
                s.append(")\nThe code 0x");
                push_digits(&mut s, *code, 16, false);
                s.append(
                    " is not a recognized multicodec value.\nSee https://github.com/multiformats/multicodec/blob/master/table.csv for valid codes.",
                );
                s
            },
            Error::NegativeValue { value } => {
                let mut s = "Cannot convert negative value ".to_owned();
                push_signed_decimal(&mut s, *value);
                s.append(" to multicodec\nCodec codes must be non-negative integers. The value ");
                push_signed_decimal(&mut s, *value);
                s.append(
                    " is negative.\nUse a non-negative value or an unsigned integer type (u8, u16, u32, u64).",
                );
                s
            },
        }
    }
}

impl From<MultitraitError> for Error {
    fn from(e: MultitraitError) -> (res: Self) {
        Error::Multitrait(e)
    }
}

impl vstd::std_specs::convert::FromSpecImpl<MultitraitError> for Error {
    open spec fn obeys_from_spec() -> bool {
        true
    }

    open spec fn from_spec(e: MultitraitError) -> Self {
        Error::Multitrait(e)
    }
}

/// `needle` occurs somewhere in `hay`, as a run of consecutive characters.
pub open spec fn mentions(hay: Seq<char>, needle: Seq<char>) -> bool {
    exists|i: int| 0 <= i <= hay.len() && needle.is_prefix_of(#[trigger] hay.skip(i))
}

/// `x` occurs in `a + x + b`.
proof fn lemma_mentions_middle(a: Seq<char>, x: Seq<char>, b: Seq<char>)
    ensures
        mentions(a + x + b, x),
{
    let hay = a + x + b;
    let i = a.len() as int;
    assert(x.is_prefix_of(hay.skip(i))) by {
        assert(hay.skip(i).subrange(0, x.len() as int) =~= x);
    }
}

/// Each error kind has its own identifier: errors of different variants never
/// report the same kind.
pub proof fn lemma_kinds_distinct(a: Error, b: Error)
    ensures
        kind_text(a) == kind_text(b) <==> (
            (a is Multitrait && b is Multitrait)
            || (a is InvalidName && b is InvalidName)
            || (a is InvalidValue && b is InvalidValue)
            || (a is NegativeValue && b is NegativeValue)),
{
    reveal_strlit("Multitrait");
    reveal_strlit("InvalidName");
    reveal_strlit("InvalidValue");
    reveal_strlit("NegativeValue");
    let ka = kind_text(a);
    let kb = kind_text(b);
    if ka == kb {
        assert(ka.len() == kb.len());
        assert(ka[0] == kb[0]);
        assert(ka[7] == kb[7]);
    }
}

/// The message and the context of an invalid-name error both quote the name
/// that was refused.
pub proof fn lemma_invalid_name_quoted(name: Seq<char>)
    ensures
        mentions(invalid_name_message(name), name),
        mentions(invalid_name_context(name), name),
{
    lemma_mentions_middle("Invalid multicodec name: '"@, name, "'\nThe name '"@ + name
        + "' is not a recognized multicodec identifier.\nSee https://github.com/multiformats/multicodec/blob/master/table.csv for valid names."@);
    assert(invalid_name_message(name) =~= "Invalid multicodec name: '"@ + name + ("'\nThe name '"@ + name
        + "' is not a recognized multicodec identifier.\nSee https://github.com/multiformats/multicodec/blob/master/table.csv for valid names."@));
    lemma_mentions_middle("Invalid name: '"@, name, "'"@);
}

/// The message and the context of an invalid-value error both show the code
/// in hexadecimal (after `0x`) and in decimal.
pub proof fn lemma_invalid_value_quoted(code: u64)
    ensures
        mentions(invalid_value_message(code), "0x"@ + lower_hex(code as nat)),
        mentions(invalid_value_message(code), decimal(code as nat)),
        mentions(invalid_value_context(code), "0x"@ + lower_hex(code as nat)),
        mentions(invalid_value_context(code), decimal(code as nat)),
{
    let h = lower_hex(code as nat);
    let d = decimal(code as nat);
    let tail = ")\nThe code 0x"@ + h
        + " is not a recognized multicodec value.\nSee https://github.com/multiformats/multicodec/blob/master/table.csv for valid codes."@;
    reveal_strlit("Invalid multicodec code: 0x");
    reveal_strlit("Invalid code: 0x");
    let mp = "Invalid multicodec code: 0x"@;
    let cp = "Invalid code: 0x"@;
    let mpre = mp.subrange(0, mp.len() - 2);
    let cpre = cp.subrange(0, cp.len() - 2);
    assert(mp =~= mpre + "0x"@) by {
        reveal_strlit("0x");
    }
    assert(cp =~= cpre + "0x"@) by {
        reveal_strlit("0x");
    }
    assert(invalid_value_message(code) =~= mpre + ("0x"@ + h) + (" ("@ + d + tail));
    lemma_mentions_middle(mpre, "0x"@ + h, " ("@ + d + tail);
    assert(invalid_value_message(code) =~= (mp + h + " ("@) + d + tail);
    lemma_mentions_middle(mp + h + " ("@, d, tail);
    assert(invalid_value_context(code) =~= cpre + ("0x"@ + h) + (" ("@ + d + ")"@));
    lemma_mentions_middle(cpre, "0x"@ + h, " ("@ + d + ")"@);
    assert(invalid_value_context(code) =~= (cp + h + " ("@) + d + ")"@);
    lemma_mentions_middle(cp + h + " ("@, d, ")"@);
}

/// The message and the context of a negative-value error both show the value,
/// sign included.
pub proof fn lemma_negative_value_quoted(value: i64)
    ensures
        mentions(negative_value_message(value), signed_decimal(value as int)),
        mentions(negative_value_context(value), signed_decimal(value as int)),
{
    let v = signed_decimal(value as int);
    let tail = " to multicodec\nCodec codes must be non-negative integers. The value "@ + v
        + " is negative.\nUse a non-negative value or an unsigned integer type (u8, u16, u32, u64)."@;
    lemma_mentions_middle("Cannot convert negative value "@, v, tail);
    assert(negative_value_message(value) =~= "Cannot convert negative value "@ + v + tail);
    lemma_mentions_middle("Negative value: "@, v, Seq::<char>::empty());
    assert(negative_value_context(value) =~= "Negative value: "@ + v + Seq::<char>::empty());
}

} // verus!
