//! Objects: a kind and a payload, their framed form and their key.

use crate::decimal::{
    decimal, decimal_value, is_digits, lemma_decimal_round_trip, parse_decimal, push_decimal,
};
use crate::error::GritError;
use crate::utils::{hash, is_key, key_of, push_char};
use vstd::prelude::*;
use vstd::std_specs::iter::IteratorSpec;
use vstd::slice::{slice_subrange, slice_to_vec};
use vstd::string::*;

verus! {

broadcast use vstd::string::group_string_axioms;

/// The four kinds of object.
#[derive(Clone, Copy, Debug, PartialEq, Eq, Structural)]
pub enum GitObjectType {
    Blob,
    Commit,
    Tag,
    Tree,
}

/// The ASCII lowercase counterpart of a character.
pub open spec fn lower_char(c: char) -> char {
    if 'A' <= c && c <= 'Z' {
        ((c as u8) + 32) as char
    } else {
        c
    }
}

/// A string with every ASCII capital replaced by its lowercase letter.
pub open spec fn lower_chars(s: Seq<char>) -> Seq<char> {
    Seq::new(s.len(), |i: int| lower_char(s[i]))
}

/// Bytes read as characters, one for one.
pub open spec fn chars_of(bytes: Seq<u8>) -> Seq<char> {
    Seq::new(bytes.len(), |i: int| bytes[i] as char)
}

/// The kind that a label names, whatever the case of its letters.
pub open spec fn kind_of_name(s: Seq<char>) -> Option<GitObjectType> {
    let l = lower_chars(s);
    if l == GitObjectType::Blob.name() {
        Some(GitObjectType::Blob)
    } else if l == GitObjectType::Commit.name() {
        Some(GitObjectType::Commit)
    } else if l == GitObjectType::Tag.name() {
        Some(GitObjectType::Tag)
    } else if l == GitObjectType::Tree.name() {
        Some(GitObjectType::Tree)
    } else {
        None
    }
}

/// A copy of `s` with every ASCII capital replaced by its lowercase
/// letter.
pub fn ascii_lowercase(s: &str) -> (lowered: String)
    ensures
        lowered@ == lower_chars(s@),
{
    let mut lowered = String::new();
    let mut rest = s.chars();
    let ghost mut done: Seq<char> = Seq::empty();
    assert(done + rest.remaining() =~= s@);
    loop
        invariant
            rest.obeys_prophetic_iter_laws(),
            done + rest.remaining() == s@,
            lowered@ == lower_chars(done),
            rest.decrease() is Some,
        ensures
            done == s@,
        decreases rest.decrease()->0,
    {
        let ghost before = rest;
        match rest.next() {
            Some(c) => {
                let l = if 'A' <= c && c <= 'Z' {
                    ((c as u8) + 32) as char
                } else {
                    c
                };
                push_char(&mut lowered, l);
                proof {
                    assert(done.push(c) + rest.remaining() =~= done + before.remaining());
                    assert(lower_chars(done.push(c)) =~= lower_chars(done).push(l));
                    done = done.push(c);
                }
            },
            None => {
                assert(done =~= s@);
                break;
            },
        }
    }
    lowered
}

impl GitObjectType {
    /// The lowercase name of the kind.
    pub open spec fn name(self) -> Seq<char> {
        match self {
            GitObjectType::Blob => seq!['b', 'l', 'o', 'b'],
            GitObjectType::Commit => seq!['c', 'o', 'm', 'm', 'i', 't'],
            GitObjectType::Tag => seq!['t', 'a', 'g'],
            GitObjectType::Tree => seq!['t', 'r', 'e', 'e'],
        }
    }

    /// The name of the kind as the ASCII bytes that open a header.
    pub open spec fn label(self) -> Seq<u8> {
        match self {
            GitObjectType::Blob => seq![98u8, 108u8, 111u8, 98u8],
            GitObjectType::Commit => seq![99u8, 111u8, 109u8, 109u8, 105u8, 116u8],
            GitObjectType::Tag => seq![116u8, 97u8, 103u8],
            GitObjectType::Tree => seq![116u8, 114u8, 101u8, 101u8],
        }
    }

    /// The lowercase name of the kind.
    pub fn to_string(&self) -> (text: String)
        ensures
            text@ == self.name(),
    {
        proof {
            reveal_strlit("blob");
            reveal_strlit("commit");
            reveal_strlit("tag");
            reveal_strlit("tree");
        }
        let text = match self {
            GitObjectType::Blob => String::from_str("blob"),
            GitObjectType::Commit => String::from_str("commit"),
            GitObjectType::Tag => String::from_str("tag"),
            GitObjectType::Tree => String::from_str("tree"),
        };
        assert(text@ =~= self.name());
        text
    }

    /// Reads a kind from its name, in any case. Any other label is refused
    /// with `InvalidObjectType`, which carries the label in lowercase.
    pub fn from_str(object: &str) -> (kind: Result<GitObjectType, GritError>)
        ensures
            match kind_of_name(object@) {
                Some(k) => kind == Ok::<GitObjectType, GritError>(k),
                None => kind matches Err(GritError::InvalidObjectType(label)) && label@
                    == lower_chars(object@),
            },
    {
        let lowered = ascii_lowercase(object);
        if lowered == GitObjectType::Blob.to_string() {
            Ok(GitObjectType::Blob)
        } else if lowered == GitObjectType::Commit.to_string() {
            Ok(GitObjectType::Commit)
        } else if lowered == GitObjectType::Tag.to_string() {
            Ok(GitObjectType::Tag)
        } else if lowered == GitObjectType::Tree.to_string() {
            Ok(GitObjectType::Tree)
        } else {
            Err(GritError::InvalidObjectType(lowered))
        }
    }

    fn push_label(&self, out: &mut Vec<u8>)
        ensures
            final(out)@ == old(out)@ + self.label(),
    {
        match self {
            GitObjectType::Blob => {
                out.push(98);
                out.push(108);
                out.push(111);
                out.push(98);
            },
            GitObjectType::Commit => {
                out.push(99);
                out.push(111);
                out.push(109);
                out.push(109);
                out.push(105);
                out.push(116);
            },
            GitObjectType::Tag => {
                out.push(116);
                out.push(97);
                out.push(103);
            },
            GitObjectType::Tree => {
                out.push(116);
                out.push(114);
                out.push(101);
                out.push(101);
            },
        }
        assert(out@ =~= old(out)@ + self.label());
    }
}

/// The header of an object of kind `kind` whose payload is `len` bytes long:
/// the kind's name, a space, the length in decimal, a zero byte.
pub open spec fn header_of(kind: GitObjectType, len: nat) -> Seq<u8> {
    kind.label() + seq![32u8] + decimal(len) + seq![0u8]
}

/// The framed form of an object: its header, then its payload.
pub open spec fn loose_of(kind: GitObjectType, payload: Seq<u8>) -> Seq<u8> {
    header_of(kind, payload.len()) + payload
}

/// The position of the first `b` in `s`, or the length of `s` where it
/// holds none.
pub open spec fn first_index(s: Seq<u8>, b: u8) -> int
    decreases s.len(),
{
    if s.len() == 0 || s[0] == b {
        0
    } else {
        1 + first_index(s.drop_first(), b)
    }
}

/// `first_index` is the place before which no `b` stands and at which one
/// does, or the sequence ends.
pub proof fn lemma_first_index(s: Seq<u8>, b: u8, i: int)
    requires
        0 <= i <= s.len(),
        forall|j: int| 0 <= j < i ==> s[j] != b,
        i == s.len() || s[i] == b,
    ensures
        first_index(s, b) == i,
    decreases s.len(),
{
    if s.len() == 0 || s[0] == b {
    } else {
        let t = s.drop_first();
        assert forall|j: int| 0 <= j < i - 1 implies t[j] != b by {
            assert(t[j] == s[j + 1]);
        }
        lemma_first_index(t, b, i - 1);
    }
}

/// Why framed bytes are not an object.
pub enum Malformed {
    /// No zero byte ends the header.
    NoNull,
    /// No space parts the kind from the length.
    NoSpace,
    /// The kind is none of the four.
    UnknownKind,
    /// The length is not a decimal number that fits.
    BadLength,
    /// The length is not that of the payload.
    SizeMismatch,
}

/// What framed bytes hold: a kind and a payload, or the first fault found.
pub open spec fn parse_spec(raw: Seq<u8>) -> Result<(GitObjectType, Seq<u8>), Malformed> {
    let n = first_index(raw, 0);
    if n >= raw.len() {
        Err(Malformed::NoNull)
    } else {
        let header = raw.subrange(0, n);
        let body = raw.subrange(n + 1, raw.len() as int);
        let sp = first_index(header, 32);
        if sp >= header.len() {
            Err(Malformed::NoSpace)
        } else {
            let size = header.subrange(sp + 1, header.len() as int);
            match kind_of_name(chars_of(header.subrange(0, sp))) {
                None => Err(Malformed::UnknownKind),
                Some(kind) => if !(is_digits(size) && decimal_value(size) <= usize::MAX) {
                    Err(Malformed::BadLength)
                } else if decimal_value(size) != body.len() {
                    Err(Malformed::SizeMismatch)
                } else {
                    Ok((kind, body))
                },
            }
        }
    }
}

/// Finds the first `b` in `s`.
pub fn find_byte(s: &[u8], b: u8) -> (at: usize)
    ensures
        at == first_index(s@, b),
        at <= s@.len(),
{
    let mut i: usize = 0;
    while i < s.len() && s[i] != b
        invariant
            i <= s.len(),
            forall|j: int| 0 <= j < i ==> s@[j] != b,
        decreases s.len() - i,
    {
        i += 1;
    }
    proof {
        lemma_first_index(s@, b, i as int);
    }
    i
}

/// Appends bytes to a string, each as the character of the same number.
pub fn push_bytes(text: &mut String, bytes: &[u8])
    ensures
        final(text)@ == old(text)@ + chars_of(bytes@),
{
    let mut i: usize = 0;
    while i < bytes.len()
        invariant
            i <= bytes.len(),
            text@ == old(text)@ + chars_of(bytes@.subrange(0, i as int)),
        decreases bytes.len() - i,
    {
        push_char(text, bytes[i] as char);
        assert(chars_of(bytes@.subrange(0, i + 1)) =~= chars_of(
            bytes@.subrange(0, i as int),
        ).push(bytes@[i as int] as char));
        i += 1;
    }
    assert(bytes@.subrange(0, i as int) =~= bytes@);
}

/// An immutable object: a kind and the payload bytes of that kind.
#[derive(Debug)]
pub struct GitObject {
    obj: GitObjectType,
    data: Vec<u8>,
}

impl GitObject {
    /// The kind of the object.
    pub closed spec fn kind(&self) -> GitObjectType {
        self.obj
    }

    /// The payload of the object.
    pub closed spec fn payload(&self) -> Seq<u8> {
        self.data@
    }

    /// The framed form of the object, as it is hashed and stored.
    pub open spec fn loose(&self) -> Seq<u8> {
        loose_of(self.kind(), self.payload())
    }

    /// The key of the object.
    pub open spec fn key(&self) -> Seq<char> {
        key_of(self.loose())
    }

    /// Makes an object of kind `obj` that holds `data`, byte for byte.
    pub fn create(obj: GitObjectType, data: &[u8]) -> (object: GitObject)
        ensures
            object.kind() == obj,
            object.payload() == data@,
    {
        GitObject { obj, data: slice_to_vec(data) }
    }

    /// The kind of the object.
    pub fn object_type(&self) -> (kind: GitObjectType)
        ensures
            kind == self.kind(),
    {
        self.obj
    }

    /// The header: the kind's name, a space, the payload's length in
    /// decimal, and a zero byte.
    pub fn header(&self) -> (header: Vec<u8>)
        ensures
            header@ == header_of(self.kind(), self.payload().len()),
    {
        let mut header: Vec<u8> = Vec::new();
        self.obj.push_label(&mut header);
        header.push(32);
        push_decimal(&mut header, self.data.len());
        header.push(0);
        assert(header@ =~= header_of(self.kind(), self.payload().len()));
        header
    }

    /// The payload bytes.
    pub fn serialize(&self) -> (payload: Vec<u8>)
        ensures
            payload@ == self.payload(),
    {
        slice_to_vec(self.data.as_slice())
    }

    /// The key: the SHA-1 of the header followed by the payload, in
    /// lowercase hexadecimal.
    pub fn hash(&self) -> (key: String)
        ensures
            key@ == self.key(),
            is_key(key@),
    {
        let header = self.header();
        hash(header.as_slice(), self.data.as_slice())
    }

    /// Reads an object back from its framed form. The header ends at the
    /// first zero byte and is parted at its first space; the length it
    /// declares must be that of what follows the zero byte.
    pub fn parse(raw: &[u8]) -> (object: Result<GitObject, GritError>)
        ensures
            match parse_spec(raw@) {
                Ok((kind, payload)) => object matches Ok(o) && o.kind() == kind && o.payload()
                    == payload,
                Err(Malformed::UnknownKind) => object matches Err(
                    GritError::InvalidObjectType(text),
                ) && text@ == fault_text(raw@, Malformed::UnknownKind),
                Err(fault) => object matches Err(GritError::InvalidHeader(text)) && text@
                    == fault_text(raw@, fault),
            },
    {
        let n = find_byte(raw, 0);
        if n >= raw.len() {
            return Err(GritError::InvalidHeader(String::from_str("null byte not found")));
        }
        let header = slice_subrange(raw, 0, n);
        let body = slice_subrange(raw, n + 1, raw.len());
        let sp = find_byte(header, 32);
        if sp >= header.len() {
            return Err(GritError::InvalidHeader(String::from_str("space not found")));
        }
        let mut label = String::new();
        push_bytes(&mut label, slice_subrange(header, 0, sp));
        assert(label@ =~= chars_of(header@.subrange(0, sp as int)));
        let obj = match GitObjectType::from_str(label.as_str()) {
            Ok(obj) => obj,
            Err(e) => {
                return Err(e);
            },
        };
        let size = match parse_decimal(slice_subrange(header, sp + 1, header.len())) {
            Some(size) => size,
            None => {
                return Err(GritError::InvalidHeader(String::from_str("invalid data length")));
            },
        };
        if size == body.len() {
            Ok(GitObject::create(obj, body))
        } else {
            let mut text = String::from_str("header size ");
            let mut digits: Vec<u8> = Vec::new();
            push_decimal(&mut digits, size);
            push_bytes(&mut text, digits.as_slice());
            text.append(" != data size ");
            let mut digits: Vec<u8> = Vec::new();
            push_decimal(&mut digits, body.len());
            push_bytes(&mut text, digits.as_slice());
            Err(GritError::InvalidHeader(text))
        }
    }
}

/// The text that an error carries for a fault in the framed bytes `raw`:
/// for an unknown kind the label in lowercase, else a message.
pub open spec fn fault_text(raw: Seq<u8>, fault: Malformed) -> Seq<char> {
    let n = first_index(raw, 0);
    let header = raw.subrange(0, n);
    let sp = first_index(header, 32);
    match fault {
        Malformed::NoNull => "null byte not found"@,
        Malformed::NoSpace => "space not found"@,
        Malformed::UnknownKind => lower_chars(chars_of(header.subrange(0, sp))),
        Malformed::BadLength => "invalid data length"@,
        Malformed::SizeMismatch => {
            let size = header.subrange(sp + 1, header.len() as int);
            "header size "@ + chars_of(decimal(decimal_value(size))) + " != data size "@
                + chars_of(decimal((raw.len() - n - 1) as nat))
        },
    }
}

/// The name of a kind, read as a label, gives that kind back.
pub proof fn lemma_label_names_kind(kind: GitObjectType)
    ensures
        kind_of_name(chars_of(kind.label())) == Some(kind),
        forall|i: int| 0 <= i < kind.label().len() ==> 97 <= #[trigger] kind.label()[i] <= 122,
{
    let l = lower_chars(chars_of(kind.label()));
    assert(l =~= kind.name());
    assert(GitObjectType::Blob.name().len() == 4);
    assert(GitObjectType::Commit.name().len() == 6);
    assert(GitObjectType::Tag.name().len() == 3);
    assert(GitObjectType::Tree.name()[1] == 'r');
    assert(GitObjectType::Blob.name()[1] == 'l');
}

/// Framing parts again: a header for kind `kind` and length `len`, followed
/// by `body`, reads back as that kind and body where `len` is the length of
/// `body`, and is refused for its size where it is not.
pub proof fn lemma_parse_framed(kind: GitObjectType, len: nat, body: Seq<u8>)
    requires
        len <= usize::MAX,
    ensures
        parse_spec(header_of(kind, len) + body) == if len == body.len() {
            Ok::<(GitObjectType, Seq<u8>), Malformed>((kind, body))
        } else {
            Err::<(GitObjectType, Seq<u8>), Malformed>(Malformed::SizeMismatch)
        },
{
    let label = kind.label();
    let digits = decimal(len);
    let raw = header_of(kind, len) + body;
    let n = label.len() + 1 + digits.len();
    lemma_label_names_kind(kind);
    lemma_decimal_round_trip(len);
    assert forall|j: int| 0 <= j < n implies raw[j] != 0 by {
        if j < label.len() {
            assert(raw[j] == label[j]);
        } else if j == label.len() {
        } else {
            assert(raw[j] == digits[j - label.len() - 1]);
        }
    }
    assert(raw[n as int] == 0);
    lemma_first_index(raw, 0, n as int);
    let header = raw.subrange(0, n as int);
    assert(header =~= label + seq![32u8] + digits);
    assert forall|j: int| 0 <= j < label.len() implies header[j] != 32 by {
        assert(header[j] == label[j]);
    }
    lemma_first_index(header, 32, label.len() as int);
    assert(header.subrange(0, label.len() as int) =~= label);
    assert(header.subrange(label.len() as int + 1, header.len() as int) =~= digits);
    assert(raw.subrange(n as int + 1, raw.len() as int) =~= body);
}

/// Reading inverts framing: the framed form of an object reads back as its
/// kind and its payload, for every kind.
pub proof fn lemma_parse_inverts_loose(kind: GitObjectType, payload: Seq<u8>)
    requires
        payload.len() <= usize::MAX,
    ensures
        parse_spec(loose_of(kind, payload)) == Ok::<(GitObjectType, Seq<u8>), Malformed>(
            (kind, payload),
        ),
{
    lemma_parse_framed(kind, payload.len(), payload);
}

/// Bytes that hold no zero byte are refused for want of a header.
pub proof fn lemma_missing_null_rejected(raw: Seq<u8>)
    requires
        forall|i: int| 0 <= i < raw.len() ==> raw[i] != 0,
    ensures
        parse_spec(raw) == Err::<(GitObjectType, Seq<u8>), Malformed>(Malformed::NoNull),
{
    lemma_first_index(raw, 0, raw.len() as int);
}

/// The key depends on the kind and the payload alone: objects that agree on
/// both have one key.
pub proof fn lemma_key_determined(a: GitObject, b: GitObject)
    requires
        a.kind() == b.kind(),
        a.payload() == b.payload(),
    ensures
        a.key() == b.key(),
{
}

} // verus!
