//! The configuration of a repository, kept in an `ini::Ini`.

use crate::decimal::{decimal, decimal_value, lemma_prefix_value, push_decimal};
use crate::object::{chars_of, push_bytes};
use ini::{Ini, LineSeparator, WriteOption};
use vstd::prelude::*;
use vstd::std_specs::iter::IteratorSpec;
use vstd::string::*;

verus! {

broadcast use vstd::string::group_string_axioms;

/// `ini::Ini`, a configuration in sections of keys and values.
#[verifier::external_type_specification]
#[verifier::external_body]
pub struct ExIni(Ini);

/// `ini::ParseError`, why a text is no configuration.
#[verifier::external_type_specification]
#[verifier::external_body]
pub struct ExIniParseError(ini::ParseError);

/// What a configuration holds: for a named section and a key, the first
/// value of that key in the first section of that name.
pub uninterp spec fn ini_values(ini: Ini) -> Map<(Seq<char>, Seq<char>), Seq<char>>;

/// The text that a configuration is written as.
pub uninterp spec fn ini_text(ini: Ini) -> Seq<u8>;

/// Settings without any value.
pub open spec fn no_values() -> Map<(Seq<char>, Seq<char>), Seq<char>> {
    Map::empty()
}

/// What a text holds when it is read as a configuration, where it can be.
pub uninterp spec fn ini_parsed(text: Seq<char>) -> Option<Map<(Seq<char>, Seq<char>), Seq<char>>>;

/// Makes a configuration with `Ini::new`: it has no named section, so it
/// holds no value.
#[verifier::external_body]
pub(crate) fn ini_new() -> (fresh: Ini)
    ensures
        ini_values(fresh) == no_values(),
{
    Ini::new()
}

/// Sets a value with `Ini::with_section` and `SectionSetter::set`: in the
/// first section of that name, made where there is none, the key's values
/// are replaced by `value`. Every other section and key keeps its value.
#[verifier::external_body]
pub(crate) fn ini_set(ini: &mut Ini, section: &str, key: &str, value: &str)
    ensures
        ini_values(*final(ini)) == ini_values(*old(ini)).insert((section@, key@), value@),
{
    ini.with_section(Some(section)).set(key, value);
}

/// Looks a value up with `Ini::get_from`: the first value of `key` in the
/// first section named `section`, if there is one.
#[verifier::external_body]
pub(crate) fn ini_get(ini: &Ini, section: &str, key: &str) -> (value: Option<String>)
    ensures
        match value {
            Some(v) => ini_values(*ini).contains_key((section@, key@)) && ini_values(*ini)[(
                section@,
                key@,
            )] == v@,
            None => !ini_values(*ini).contains_key((section@, key@)),
        },
{
    ini.get_from(Some(section), key).map(String::from)
}

/// Reads a configuration with `Ini::load_from_str`. It is accepted exactly
/// where `ini_parsed` names what it holds, and then holds that.
#[verifier::external_body]
pub(crate) fn ini_parse(text: &str) -> (read: Result<Ini, ini::ParseError>)
    ensures
        match ini_parsed(text@) {
            Some(values) => read matches Ok(i) && ini_values(i) == values,
            None => read is Err,
        },
{
    Ini::load_from_str(text)
}

/// Writes a configuration into a fresh buffer with `Ini::write_to_opt`,
/// each line ended by a line feed. That function fails only where its
/// writer does, and a `Vec<u8>` takes every write: the result is `Ok`, and
/// the buffer holds the text named `ini_text`.
#[verifier::external_body]
pub(crate) fn ini_write(ini: &Ini) -> (text: Result<Vec<u8>, std::io::Error>)
    ensures
        match text {
            Ok(t) => t@ == ini_text(*ini),
            Err(_) => false,
        },
{
    let mut text = Vec::new();
    let lines = WriteOption { line_separator: LineSeparator::CR, ..WriteOption::default() };
    ini.write_to_opt(&mut text, lines)?;
    Ok(text)
}

/// A non-empty run of decimal digit characters.
pub open spec fn is_digit_chars(s: Seq<char>) -> bool {
    &&& s.len() > 0
    &&& forall|i: int| 0 <= i < s.len() ==> '0' <= #[trigger] s[i] && s[i] <= '9'
}

/// The characters of a text as bytes, one for one.
pub open spec fn bytes_of(s: Seq<char>) -> Seq<u8> {
    Seq::new(s.len(), |i: int| s[i] as u8)
}

/// The whole number that a text denotes: an optional sign and digits.
pub open spec fn signed_value(s: Seq<char>) -> Option<int> {
    if s.len() > 0 && s[0] == '-' {
        if is_digit_chars(s.drop_first()) {
            Some(-(decimal_value(bytes_of(s.drop_first())) as int))
        } else {
            None
        }
    } else if s.len() > 0 && s[0] == '+' {
        if is_digit_chars(s.drop_first()) {
            Some(decimal_value(bytes_of(s.drop_first())) as int)
        } else {
            None
        }
    } else if is_digit_chars(s) {
        Some(decimal_value(bytes_of(s)) as int)
    } else {
        None
    }
}

/// A whole number in decimal, with a minus sign where it is negative.
pub open spec fn signed_text(v: int) -> Seq<char> {
    if v < 0 {
        seq!['-'] + chars_of(decimal((-v) as nat))
    } else {
        chars_of(decimal(v as nat))
    }
}

/// Reads a whole number: an optional sign, then decimal digits and
/// nothing else, within the range of `i32`.
pub fn parse_i32(s: &str) -> (value: Option<i32>)
    ensures
        value == match signed_value(s@) {
            Some(v) => if i32::MIN <= v <= i32::MAX {
                Some(v as i32)
            } else {
                None
            },
            None => None,
        },
{
    let mut rest = s.chars();
    let first = match rest.next() {
        Some(c) => c,
        None => {
            return None;
        },
    };
    let signed = first == '-' || first == '+';
    let ghost digits = if signed {
        s@.drop_first()
    } else {
        s@
    };
    let ghost mut done: Seq<char> = Seq::empty();
    let mut acc: i64 = 0;
    let mut any = false;
    if !signed {
        if !('0' <= first && first <= '9') {
            return None;
        }
        acc = ((first as u8) - 48) as i64;
        any = true;
        proof {
            done = seq![first];
            assert(bytes_of(done).drop_last() =~= Seq::<u8>::empty());
            assert(decimal_value(bytes_of(done).drop_last()) == 0);
            assert(bytes_of(done).last() == first as u8);
            assert(done + rest.remaining() =~= digits);
        }
    } else {
        assert(bytes_of(done) =~= Seq::<u8>::empty());
        assert(done + rest.remaining() =~= digits);
    }
    loop
        invariant
            rest.obeys_prophetic_iter_laws(),
            rest.decrease() is Some,
            s@.len() > 0,
            s@[0] == first,
            signed == (first == '-' || first == '+'),
            digits == if signed {
                s@.drop_first()
            } else {
                s@
            },
            done + rest.remaining() == digits,
            forall|i: int| 0 <= i < done.len() ==> '0' <= #[trigger] done[i] && done[i] <= '9',
            any == (done.len() > 0),
            acc == decimal_value(bytes_of(done)),
            0 <= acc <= 2147483648,
        ensures
            done == digits,
        decreases rest.decrease()->0,
    {
        let ghost before = rest;
        match rest.next() {
            Some(c) => {
                proof {
                    assert(done.push(c) + rest.remaining() =~= done + before.remaining());
                    assert(digits[done.len() as int] == c);
                }
                if !('0' <= c && c <= '9') {
                    return None;
                }
                let d = ((c as u8) - 48) as i64;
                proof {
                    assert(bytes_of(done.push(c)).drop_last() =~= bytes_of(done));
                }
                acc = acc * 10 + d;
                any = true;
                proof {
                    done = done.push(c);
                }
                if acc > 2147483648 {
                    proof {
                        if is_digit_chars(digits) {
                            lemma_prefix_value(bytes_of(digits), done.len() as int);
                            assert(bytes_of(digits).subrange(0, done.len() as int) =~= bytes_of(
                                done,
                            ));
                        }
                    }
                    return None;
                }
            },
            None => {
                assert(done =~= digits);
                break;
            },
        }
    }
    if !any {
        return None;
    }
    assert(is_digit_chars(digits));
    if first == '-' {
        Some((-acc) as i32)
    } else if acc > 2147483647 {
        None
    } else {
        Some(acc as i32)
    }
}

/// Appends a whole number in decimal to a text.
pub fn push_signed(text: &mut String, v: i32)
    ensures
        final(text)@ == old(text)@ + signed_text(v as int),
{
    let mut digits: Vec<u8> = Vec::new();
    if v < 0 {
        proof {
            reveal_strlit("-");
        }
        text.append("-");
        let wide: i64 = -(v as i64);
        push_decimal(&mut digits, wide as usize);
        push_bytes(text, digits.as_slice());
        assert(text@ =~= old(text)@ + signed_text(v as int));
    } else {
        push_decimal(&mut digits, v as usize);
        push_bytes(text, digits.as_slice());
    }
}

/// The settings of a fresh repository.
pub open spec fn default_values() -> Map<(Seq<char>, Seq<char>), Seq<char>> {
    no_values().insert(
        ("core"@, "bare"@),
        "false"@,
    ).insert(("core"@, "repositoryformatversion"@), "0"@).insert(
        ("core"@, "filemode"@),
        "false"@,
    )
}

/// The format version that settings declare: the number under
/// `repositoryformatversion` in the core section, or -1 where there is
/// none or it is no number.
pub open spec fn format_version(values: Map<(Seq<char>, Seq<char>), Seq<char>>) -> int {
    let at = ("core"@, "repositoryformatversion"@);
    if values.contains_key(at) {
        match signed_value(values[at]) {
            Some(v) => if i32::MIN <= v <= i32::MAX {
                v
            } else {
                -1
            },
            None => -1,
        }
    } else {
        -1
    }
}

/// The format version that a configuration declares.
pub fn declared_version(config: &Ini) -> (version: i32)
    ensures
        version == format_version(ini_values(*config)),
{
    match ini_get(config, "core", "repositoryformatversion") {
        Some(text) => match parse_i32(text.as_str()) {
            Some(v) => v,
            None => -1,
        },
        None => -1,
    }
}

/// The settings of a fresh repository declare format version 0.
pub proof fn lemma_default_version()
    ensures
        format_version(default_values()) == 0,
{
    reveal_strlit("0");
    reveal_strlit("core");
    reveal_strlit("bare");
    reveal_strlit("filemode");
    reveal_strlit("repositoryformatversion");
    let s = "0"@;
    assert(is_digit_chars(s));
    assert(bytes_of(s).drop_last() =~= Seq::<u8>::empty());
    assert(decimal_value(bytes_of(s).drop_last()) == 0);
    assert(decimal_value(bytes_of(s)) == 0);
    let at = ("core"@, "repositoryformatversion"@);
    assert("filemode"@.len() != "repositoryformatversion"@.len());
    assert(default_values()[at] == "0"@);
}

} // verus!
