//! Type-safe wrappers for multicodec identifiers.

use vstd::prelude::*;

use crate::text::{lower_hex, push_digits, upper_hex};

verus! {

/// A codec code value (0x00 - 0xFFFFFFFFFFFFFFFF).
#[derive(Clone, Copy, Debug, Hash, PartialEq, Eq, Structural, Ord)]
pub struct CodecCode(u64);

impl View for CodecCode {
    type V = u64;

    closed spec fn view(&self) -> u64 {
        self.0
    }
}

impl CodecCode {
    /// Create a new `CodecCode` from a u64 value.
    pub fn new(code: u64) -> (res: Self)
        ensures
            res@ == code,
    {
        CodecCode(code)
    }

    /// Get the raw u64 value.
    pub fn get(self) -> (res: u64)
        ensures
            res == self@,
    {
        self.0
    }

    /// Get the value as a hexadecimal string, `0x` followed by lower-case
    /// digits.
    pub fn as_hex(&self) -> (res: String)
        ensures
            res@ == "0x"@ + lower_hex(self@ as nat),
    {
        let mut s = "0x".to_owned();
        push_digits(&mut s, self.0, 16, false);
        s
    }

    /// The display form of the code: `0x` followed by lower-case hex digits.
    pub fn to_string(&self) -> (res: String)
        ensures
            res@ == "0x"@ + lower_hex(self@ as nat),
    {
        self.as_hex()
    }

    /// The lower-case hexadecimal digits of the code, without a prefix.
    pub fn to_lower_hex(&self) -> (res: String)
        ensures
            res@ == lower_hex(self@ as nat),
    {
        let mut s = String::new();
        push_digits(&mut s, self.0, 16, false);
        s
    }

    /// The upper-case hexadecimal digits of the code, without a prefix.
    pub fn to_upper_hex(&self) -> (res: String)
        ensures
            res@ == upper_hex(self@ as nat),
    {
        let mut s = String::new();
        push_digits(&mut s, self.0, 16, true);
        s
    }

    /// Check if this is the null/identity codec (0x00).
    pub fn is_identity(&self) -> (res: bool)
        ensures
            res <==> self@ == 0,
    {
        self.0 == 0
    }
}

/// The code that holds `code`.
pub closed spec fn code_of(code: u64) -> CodecCode {
    CodecCode(code)
}

/// Wrapping a number as a code and unwrapping it again gives the number back,
/// and two codes are the same exactly when their numbers are.
pub proof fn lemma_code_round_trip(code: u64, a: CodecCode, b: CodecCode)
    ensures
        code_of(code)@ == code,
        code_of(a@) == a,
        a@ == b@ <==> a == b,
{
}

impl From<u64> for CodecCode {
    fn from(code: u64) -> (res: Self) {
        CodecCode(code)
    }
}

impl vstd::std_specs::convert::FromSpecImpl<u64> for CodecCode {
    open spec fn obeys_from_spec() -> bool {
        true
    }

    open spec fn from_spec(code: u64) -> Self {
        code_of(code)
    }
}

impl From<CodecCode> for u64 {
    fn from(code: CodecCode) -> (res: Self) {
        code.0
    }
}

impl vstd::std_specs::convert::FromSpecImpl<CodecCode> for u64 {
    open spec fn obeys_from_spec() -> bool {
        true
    }

    open spec fn from_spec(code: CodecCode) -> Self {
        code@
    }
}

/// A codec name string.
#[derive(Clone, Debug, Hash, Eq, Ord)]
pub struct CodecName(String);

impl View for CodecName {
    type V = Seq<char>;

    closed spec fn view(&self) -> Seq<char> {
        self.0@
    }
}

/// Compares two string slices for equality.
#[verifier::external_body]
fn str_eq(a: &str, b: &str) -> (res: bool)
    ensures
        res <==> a@ == b@,
{
    a == b
}

impl CodecName {
    /// Create a new `CodecName` from a string.
    pub fn new(name: &str) -> (res: Self)
        ensures
            res@ == name@,
    {
        CodecName(name.to_owned())
    }

    /// Get the name as a string slice.
    pub fn as_str(&self) -> (res: &str)
        ensures
            res@ == self@,
    {
        self.0.as_str()
    }

    /// Check if this is the identity codec name.
    pub fn is_identity(&self) -> (res: bool)
        ensures
            res <==> self@ == "identity"@,
    {
        str_eq(self.0.as_str(), "identity")
    }

    /// Get the length of the name in bytes (its UTF-8 encoding).
    pub fn len(&self) -> (res: usize)
        ensures
            res == vstd::utf8::encode_utf8(self@).len() as usize,
    {
        self.0.as_str().len()
    }

    /// The display form of the name: the name itself.
    pub fn to_string(&self) -> (res: String)
        ensures
            res@ == self@,
    {
        self.0.clone()
    }

    /// Check if the name is empty.
    pub fn is_empty(&self) -> (res: bool)
        ensures
            res <==> self@.len() == 0,
    {
        self.0.as_str().is_empty()
    }
}

/// The name that holds `name`.
pub closed spec fn name_of(name: String) -> CodecName {
    CodecName(name)
}

impl CodecName {
    /// The string a name holds.
    pub closed spec fn inner(&self) -> String {
        self.0
    }
}

/// Wrapping a string as a name and unwrapping it again gives the same string
/// back, and the name reads as the string does.
pub proof fn lemma_name_round_trip(name: String, n: CodecName)
    ensures
        name_of(name).inner() == name,
        name_of(name)@ == name@,
        name_of(n.inner()) == n,
        n.inner()@ == n@,
{
}

/// A name is empty exactly when it is the empty string, and exactly when its
/// length in bytes is zero (for any name whose byte length fits a `usize`).
pub proof fn lemma_name_empty(n: CodecName)
    requires
        vstd::utf8::encode_utf8(n@).len() <= usize::MAX,
    ensures
        n@.len() == 0 <==> n@ == ""@,
        n@.len() == 0 <==> vstd::utf8::encode_utf8(n@).len() as usize == 0,
{
    reveal_strlit("");
    if n@.len() > 0 {
        let first = vstd::utf8::encode_scalar(n@[0] as u32);
        assert(first.len() >= 1);
        assert(vstd::utf8::encode_utf8(n@) == first + vstd::utf8::encode_utf8(n@.drop_first()));
    } else {
        assert(n@ =~= ""@);
    }
}

impl PartialEq for CodecName {
    fn eq(&self, other: &Self) -> (res: bool) {
        self.0 == other.0
    }
}

impl vstd::std_specs::cmp::PartialEqSpecImpl for CodecName {
    open spec fn obeys_eq_spec() -> bool {
        true
    }

    open spec fn eq_spec(&self, other: &Self) -> bool {
        self@ == other@
    }
}

impl From<String> for CodecName {
    fn from(name: String) -> (res: Self) {
        CodecName(name)
    }
}

impl vstd::std_specs::convert::FromSpecImpl<String> for CodecName {
    open spec fn obeys_from_spec() -> bool {
        true
    }

    open spec fn from_spec(name: String) -> Self {
        name_of(name)
    }
}

impl From<CodecName> for String {
    fn from(name: CodecName) -> (res: Self) {
        name.0
    }
}

impl vstd::std_specs::convert::FromSpecImpl<CodecName> for String {
    open spec fn obeys_from_spec() -> bool {
        true
    }

    open spec fn from_spec(name: CodecName) -> Self {
        name.inner()
    }
}

impl<'a> From<&'a str> for CodecName {
    fn from(name: &'a str) -> (res: Self)
        ensures
            res@ == name@,
    {
        CodecName::new(name)
    }
}

/// A name made from a string slice holds a fresh copy of it, which Verus
/// knows by its characters only, not as one particular `String` value; so no
/// single value is claimed here, and the conversion states the characters of
/// its result instead.
impl<'a> vstd::std_specs::convert::FromSpecImpl<&'a str> for CodecName {
    open spec fn obeys_from_spec() -> bool {
        false
    }

    open spec fn from_spec(name: &'a str) -> Self {
        choose|n: CodecName| n@ == name@
    }
}

impl AsRef<str> for CodecName {
    fn as_ref(&self) -> (res: &str)
        ensures
            res@ == self@,
    {
        self.0.as_str()
    }
}

} // verus!
