//! Channel names as they are configured and as they are joined.

use vstd::prelude::*;
use crate::config::ConfigError;
use crate::text::{texts, to_chars};

verus! {

/// Whether `c` may occur in a configured channel name: an ASCII letter, an
/// ASCII digit or an underscore.
pub open spec fn is_name_char(c: char) -> bool {
    ||| 'a' <= c <= 'z'
    ||| 'A' <= c <= 'Z'
    ||| '0' <= c <= '9'
    ||| c == '_'
}

/// Whether `name` is an acceptable configured channel name: at least one
/// character, each of them a name character.
pub open spec fn is_valid_name(name: Seq<char>) -> bool {
    &&& name.len() > 0
    &&& forall|i: int| 0 <= i < name.len() ==> is_name_char(#[trigger] name[i])
}

/// The lower-case form of an ASCII capital letter; any other character is
/// itself.
pub open spec fn lower(c: char) -> char {
    if 'A' <= c <= 'Z' {
        ((c as u8) + 32) as u8 as char
    } else {
        c
    }
}

/// The joined form of a configured name: `#`, then the name in lower case.
pub open spec fn normalized(name: Seq<char>) -> Seq<char> {
    seq!['#'] + name.map_values(|c: char| lower(c))
}

/// Whether `i` is the place of the first unacceptable name in `names`.
pub open spec fn is_first_invalid(names: Seq<Seq<char>>, i: int) -> bool {
    &&& 0 <= i < names.len()
    &&& !is_valid_name(names[i])
    &&& forall|j: int| 0 <= j < i ==> is_valid_name(#[trigger] names[j])
}

/// Whether every name in `names` is acceptable.
pub open spec fn all_valid(names: Seq<Seq<char>>) -> bool {
    forall|i: int| 0 <= i < names.len() ==> is_valid_name(#[trigger] names[i])
}

/// Whether `e` is the error that rejects the configured name `name`.
pub open spec fn rejects(e: ConfigError, name: Seq<char>) -> bool {
    e matches ConfigError::InvalidChannelName(n) && n@ == name
}

/// Whether `c` may occur in a configured channel name.
pub fn name_char(c: char) -> (r: bool)
    ensures
        r == is_name_char(c),
{
    (c >= 'a' && c <= 'z') || (c >= 'A' && c <= 'Z') || (c >= '0' && c <= '9') || c == '_'
}

/// The lower-case form of an ASCII capital letter; any other character is
/// itself.
pub fn to_lower(c: char) -> (r: char)
    ensures
        r == lower(c),
{
    if c >= 'A' && c <= 'Z' {
        let b: u8 = c as u8;
        (b + 32) as char
    } else {
        c
    }
}

/// The joined form of the configured name `raw`, or the error that names it
/// where it is empty or holds a character that is neither an ASCII letter,
/// an ASCII digit nor an underscore.
pub fn normalize_channel(raw: &str) -> (r: Result<String, ConfigError>)
    ensures
        match r {
            Ok(name) => is_valid_name(raw@) && name@ == normalized(raw@),
            Err(e) => !is_valid_name(raw@) && rejects(e, raw@),
        },
{
    let chars = to_chars(raw);
    if chars.len() == 0 {
        return Err(ConfigError::InvalidChannelName(raw.to_owned()));
    }
    let mut out = String::new();
    out.push('#');
    let mut i: usize = 0;
    while i < chars.len()
        invariant
            i <= chars.len(),
            chars@ == raw@,
            out@ == seq!['#'] + raw@.take(i as int).map_values(|c: char| lower(c)),
            forall|j: int| 0 <= j < i ==> is_name_char(#[trigger] raw@[j]),
        decreases chars.len() - i,
    {
        let c = chars[i];
        if !name_char(c) {
            return Err(ConfigError::InvalidChannelName(raw.to_owned()));
        }
        out.push(to_lower(c));
        i += 1;
    }
    Ok(out)
}

/// The joined forms of the configured names `raw`, in their order, or the
/// error that names the first of them that is not acceptable.
pub fn normalize_channels(raw: &Vec<String>) -> (r: Result<Vec<String>, ConfigError>)
    ensures
        match r {
            Ok(names) => all_valid(texts(raw@)) && texts(names@) == texts(raw@).map_values(
                |n: Seq<char>| normalized(n),
            ),
            Err(e) => exists|i: int|
                is_first_invalid(texts(raw@), i) && rejects(e, #[trigger] texts(raw@)[i]),
        },
{
    let mut out: Vec<String> = Vec::new();
    let mut i: usize = 0;
    while i < raw.len()
        invariant
            i <= raw.len(),
            all_valid(texts(raw@).take(i as int)),
            texts(out@) == texts(raw@).take(i as int).map_values(|n: Seq<char>| normalized(n)),
        decreases raw.len() - i,
    {
        let ghost before = out@;
        match normalize_channel(raw[i].as_str()) {
            Ok(name) => {
                out.push(name);
            },
            Err(e) => {
                proof {
                    assert(texts(raw@)[i as int] == raw@[i as int]@);
                    assert forall|j: int| 0 <= j < i implies is_valid_name(
                        #[trigger] texts(raw@)[j],
                    ) by {
                        assert(texts(raw@).take(i as int)[j] == texts(raw@)[j]);
                    }
                }
                return Err(e);
            },
        }
        proof {
            let all = texts(raw@);
            assert(texts(out@) =~= texts(before).push(normalized(all[i as int])));
        }
        i += 1;
    }
    proof {
        assert(texts(raw@).take(raw.len() as int) =~= texts(raw@));
    }
    Ok(out)
}

} // verus!
