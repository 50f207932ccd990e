//! The commands of the cache client: how each request is put together and
//! what each reply means.

use crate::cache::{
    args_bytes, command_bytes, copy_range, encode_command, find_byte, first_of, lemma_first_of,
    lemma_models, line_break, models, CacheError, RespModel, RespValue,
};
use crate::foreign::string_from_utf8;
use crate::text::{decimal_chars, decimal_string, signed_decimal_chars, signed_decimal_string};
use vstd::prelude::*;
use vstd::utf8::{decode_utf8, encode_utf8, valid_utf8};

verus! {

/// A command on the wire, its arguments given as text.
pub open spec fn command_text(args: Seq<Seq<char>>) -> Seq<u8> {
    command_bytes(args.map_values(|a: Seq<char>| encode_utf8(a)))
}

/// The characters of each string.
pub open spec fn texts_of(args: Seq<&str>) -> Seq<Seq<char>> {
    args.map_values(|a: &str| a@)
}

/// The characters of a run of strings with one more are the characters of
/// the run with those of the last.
proof fn lemma_texts_push(args: Seq<&str>, a: &str)
    ensures
        texts_of(args.push(a)) == texts_of(args).push(a@),
{
    assert(texts_of(args.push(a)) =~= texts_of(args).push(a@));
}

/// Encodes the command whose arguments are `args`.
fn encode_texts(args: &Vec<&str>) -> (buf: Vec<u8>)
    ensures
        buf@ == command_text(texts_of(args@)),
{
    let buf = encode_command(args.as_slice());
    assert(args_bytes(args@) =~= texts_of(args@).map_values(|a: Seq<char>| encode_utf8(a)));
    buf
}

/// The `SET` request for `key` and `value`, with `EX` and the number of
/// seconds where the entry is to expire.
pub fn set_command(key: &str, value: &str, ttl: Option<u64>) -> (buf: Vec<u8>)
    ensures
        buf@ == command_text(
            match ttl {
                Some(seconds) => seq!["SET"@, key@, value@, "EX"@, decimal_chars(seconds as nat)],
                None => seq!["SET"@, key@, value@],
            },
        ),
{
    let mut args: Vec<&str> = Vec::new();
    args.push("SET");
    args.push(key);
    args.push(value);
    match ttl {
        Some(seconds) => {
            let text = decimal_string(seconds);
            args.push("EX");
            args.push(text.as_str());
            assert(texts_of(args@) =~= seq![
                "SET"@,
                key@,
                value@,
                "EX"@,
                decimal_chars(seconds as nat),
            ]);
            encode_texts(&args)
        },
        None => {
            assert(texts_of(args@) =~= seq!["SET"@, key@, value@]);
            encode_texts(&args)
        },
    }
}

/// The `EXPIRE` request for `key`.
pub fn expire_command(key: &str, seconds: u64) -> (buf: Vec<u8>)
    ensures
        buf@ == command_text(seq!["EXPIRE"@, key@, decimal_chars(seconds as nat)]),
{
    let text = decimal_string(seconds);
    let mut args: Vec<&str> = Vec::new();
    args.push("EXPIRE");
    args.push(key);
    args.push(text.as_str());
    assert(texts_of(args@) =~= seq!["EXPIRE"@, key@, decimal_chars(seconds as nat)]);
    encode_texts(&args)
}

/// The `INCRBY` request for `key`.
pub fn incrby_command(key: &str, amount: i64) -> (buf: Vec<u8>)
    ensures
        buf@ == command_text(seq!["INCRBY"@, key@, signed_decimal_chars(amount as int)]),
{
    let text = signed_decimal_string(amount);
    let mut args: Vec<&str> = Vec::new();
    args.push("INCRBY");
    args.push(key);
    args.push(text.as_str());
    assert(texts_of(args@) =~= seq!["INCRBY"@, key@, signed_decimal_chars(amount as int)]);
    encode_texts(&args)
}

/// The `MGET` request for `keys`, in their order.
pub fn mget_command(keys: &[&str]) -> (buf: Vec<u8>)
    ensures
        buf@ == command_text(seq!["MGET"@] + texts_of(keys@)),
{
    let mut args: Vec<&str> = Vec::new();
    args.push("MGET");
    let mut i: usize = 0;
    while i < keys.len()
        invariant
            i <= keys.len(),
            texts_of(args@) == seq!["MGET"@] + texts_of(keys@.take(i as int)),
        decreases keys.len() - i,
    {
        proof {
            lemma_texts_push(args@, keys@[i as int]);
            lemma_texts_push(keys@.take(i as int), keys@[i as int]);
            assert(keys@.take(i + 1) =~= keys@.take(i as int).push(keys@[i as int]));
        }
        args.push(keys[i]);
        i += 1;
        assert(texts_of(args@) =~= seq!["MGET"@] + texts_of(keys@.take(i as int)));
    }
    assert(keys@.take(i as int) =~= keys@);
    encode_texts(&args)
}

/// Each key and then its value, pair after pair.
pub open spec fn pair_texts(pairs: Seq<(&str, &str)>) -> Seq<Seq<char>>
    decreases pairs.len(),
{
    if pairs.len() == 0 {
        Seq::empty()
    } else {
        pair_texts(pairs.drop_last()).push(pairs.last().0@).push(pairs.last().1@)
    }
}

/// The `MSET` request for `pairs`, in their order.
pub fn mset_command(pairs: &[(&str, &str)]) -> (buf: Vec<u8>)
    ensures
        buf@ == command_text(seq!["MSET"@] + pair_texts(pairs@)),
{
    let mut args: Vec<&str> = Vec::new();
    args.push("MSET");
    let mut i: usize = 0;
    assert(pairs@.take(0) =~= Seq::<(&str, &str)>::empty());
    while i < pairs.len()
        invariant
            i <= pairs.len(),
            texts_of(args@) == seq!["MSET"@] + pair_texts(pairs@.take(i as int)),
        decreases pairs.len() - i,
    {
        proof {
            lemma_texts_push(args@, pairs@[i as int].0);
            lemma_texts_push(args@.push(pairs@[i as int].0), pairs@[i as int].1);
        }
        args.push(pairs[i].0);
        args.push(pairs[i].1);
        proof {
            let next = pairs@.take(i + 1);
            assert(next.drop_last() =~= pairs@.take(i as int));
            assert(next.last() == pairs@[i as int]);
            assert(texts_of(args@) =~= seq!["MSET"@] + pair_texts(next));
        }
        i += 1;
    }
    assert(pairs@.take(i as int) =~= pairs@);
    encode_texts(&args)
}

/// The reply to a command, or the error that the server reported in its place.
pub fn reply_or_error(resp: RespValue) -> (r: Result<RespValue, CacheError>)
    ensures
        resp matches RespValue::Error(text) ==> (r matches Err(CacheError::Server(why)) && why@
            == text@),
        !(resp is Error) ==> (r matches Ok(v) && v == resp),
{
    match resp {
        RespValue::Error(text) => Err(CacheError::Server(text)),
        other => Ok(other),
    }
}

/// Accepts the reply `OK`. Any other reply is a protocol error that names
/// the command.
pub fn ok_reply(resp: &RespValue, command: &str) -> (r: Result<(), CacheError>)
    ensures
        resp@ == RespModel::SimpleString("OK"@) ==> r is Ok,
        resp@ != RespModel::SimpleString("OK"@) ==> (r matches Err(CacheError::Protocol(why))
            && why@ == command@ + " did not return OK"@),
{
    if resp.is_ok() {
        Ok(())
    } else {
        Err(CacheError::Protocol(String::from_str(command).concat(" did not return OK")))
    }
}

/// Whether the reply is an integer above zero.
pub fn flag_reply(resp: &RespValue) -> (r: bool)
    ensures
        r == (match resp@.integer() {
            Some(i) => i > 0,
            None => false,
        }),
{
    match resp.as_integer() {
        Some(i) => i > 0,
        None => false,
    }
}

/// The time to live that the reply gives; -2, the answer for a missing key,
/// where the reply is no integer.
pub fn ttl_reply(resp: &RespValue) -> (r: i64)
    ensures
        r == (match resp@.integer() {
            Some(i) => i,
            None => -2i64,
        }),
{
    match resp.as_integer() {
        Some(i) => i,
        None => -2,
    }
}

/// The integer of the reply. Any other reply is a protocol error that names
/// the command.
pub fn integer_reply(resp: &RespValue, command: &str) -> (r: Result<i64, CacheError>)
    ensures
        resp@.integer() matches Some(i) ==> r == Ok::<i64, CacheError>(i),
        resp@.integer() is None ==> (r matches Err(CacheError::Protocol(why)) && why@
            == command@ + " did not return integer"@),
{
    match resp.as_integer() {
        Some(i) => Ok(i),
        None => Err(
            CacheError::Protocol(String::from_str(command).concat(" did not return integer")),
        ),
    }
}

/// Accepts the reply `PONG`.
pub fn pong_reply(resp: &RespValue) -> (r: Result<(), CacheError>)
    ensures
        resp@ == RespModel::SimpleString("PONG"@) ==> r is Ok,
        resp@ != RespModel::SimpleString("PONG"@) ==> (r matches Err(CacheError::Protocol(why))
            && why@ == "PING did not return PONG"@),
{
    let pong = match resp {
        RespValue::SimpleString(s) => *s == String::from_str("PONG"),
        _ => false,
    };
    if pong {
        Ok(())
    } else {
        Err(CacheError::Protocol(String::from_str("PING did not return PONG")))
    }
}

/// The texts among `items`, in order; items that hold no text are left out.
pub open spec fn present_texts(items: Seq<RespModel>) -> Seq<Seq<char>>
    decreases items.len(),
{
    if items.len() == 0 {
        Seq::empty()
    } else {
        match items.last().text() {
            Some(t) => present_texts(items.drop_last()).push(t),
            None => present_texts(items.drop_last()),
        }
    }
}

/// The keys that the reply lists: the texts of its array, or nothing where
/// it is no array.
pub fn keys_reply(resp: &RespValue) -> (keys: Vec<String>)
    ensures
        keys.deep_view() == (match resp@ {
            RespModel::Array(Some(items)) => present_texts(items),
            _ => Seq::empty(),
        }),
{
    let mut keys: Vec<String> = Vec::new();
    match resp.as_array() {
        Some(items) => {
            let mut i: usize = 0;
            proof {
                lemma_models(items@);
                assert(models(items@).take(0) =~= Seq::<RespModel>::empty());
                assert(keys.deep_view() =~= Seq::<Seq<char>>::empty());
            }
            while i < items.len()
                invariant
                    i <= items.len(),
                    models(items@).len() == items.len(),
                    forall|j: int| 0 <= j < items.len() ==> (#[trigger] models(items@)[j]) == items[j]@,
                    keys.deep_view() == present_texts(models(items@).take(i as int)),
                decreases items.len() - i,
            {
                let ghost before = keys.deep_view();
                let ghost next = models(items@).take(i + 1);
                assert(next.drop_last() =~= models(items@).take(i as int));
                assert(next.last() == items[i as int]@);
                match items[i].as_string() {
                    Some(text) => {
                        keys.push(text);
                        assert(keys.deep_view() =~= before.push(text@));
                    },
                    None => {},
                }
                i += 1;
            }
            assert(models(items@).take(i as int) =~= models(items@));
        },
        None => {
            assert(keys.deep_view() =~= Seq::<Seq<char>>::empty());
        },
    }
    keys
}

/// The value that one item of an `MGET` reply gives: the text of a string,
/// nothing for a missing bulk string or any other item.
pub open spec fn fetched(item: RespModel) -> Option<Seq<char>> {
    match item {
        RespModel::BulkString(s) => s,
        RespModel::SimpleString(s) => Some(s),
        _ => None,
    }
}

/// The values that the reply to `MGET` gives, one for each item of its
/// array; where it is no array, nothing for each of the `count` keys asked.
pub fn mget_reply(resp: &RespValue, count: usize) -> (values: Vec<Option<String>>)
    ensures
        values.deep_view() == (match resp@ {
            RespModel::Array(Some(items)) => items.map_values(|m: RespModel| fetched(m)),
            _ => Seq::new(count as nat, |i: int| None::<Seq<char>>),
        }),
{
    let mut values: Vec<Option<String>> = Vec::new();
    match resp.as_array() {
        Some(items) => {
            let mut i: usize = 0;
            proof {
                lemma_models(items@);
            }
            while i < items.len()
                invariant
                    i <= items.len(),
                    values.len() == i,
                    forall|j: int| 0 <= j < i ==> (#[trigger] values[j]).deep_view() == fetched(items[j]@),
                decreases items.len() - i,
            {
                let value = match &items[i] {
                    RespValue::BulkString(Some(s)) => Some(s.clone()),
                    RespValue::SimpleString(s) => Some(s.clone()),
                    _ => None,
                };
                values.push(value);
                i += 1;
            }
            assert(values.deep_view() =~= models(items@).map_values(|m: RespModel| fetched(m)));
        },
        None => {
            let mut i: usize = 0;
            while i < count
                invariant
                    i <= count,
                    values.len() == i,
                    forall|j: int| 0 <= j < i ==> (#[trigger] values[j]) is None,
                decreases count - i,
            {
                values.push(None);
                i += 1;
            }
            assert(values.deep_view() =~= Seq::new(count as nat, |i: int| None::<Seq<char>>));
        },
    }
    values
}

/// What one line of the server's report says: the name before its first
/// colon and the value behind it. The line runs from `from` up to `end`.
/// Empty lines, lines that start with `#` and lines without a colon say
/// nothing.
pub open spec fn info_entry(s: Seq<u8>, from: int, end: int) -> Option<(Seq<char>, Seq<char>)> {
    let colon = first_of(s, 58, from);
    if end <= from || s[from] == 35 || colon >= end {
        None
    } else if valid_utf8(s.subrange(from, colon)) && valid_utf8(s.subrange(colon + 1, end)) {
        Some((decode_utf8(s.subrange(from, colon)), decode_utf8(s.subrange(colon + 1, end))))
    } else {
        None
    }
}

/// The entries of the lines of a report from `from` on, in order. A line
/// runs up to a line feed, which is left out together with a carriage
/// return just before it; what follows the last line feed is a line too.
pub open spec fn info_entries(s: Seq<u8>, from: int) -> Seq<(Seq<char>, Seq<char>)>
    decreases s.len() - from,
{
    if from < 0 || from >= s.len() {
        Seq::empty()
    } else {
        let brk = line_break(s, from);
        let end = if brk < s.len() && brk > from && s[brk - 1] == 13 {
            brk - 1
        } else {
            brk
        };
        let here = match info_entry(s, from, end) {
            Some(entry) => seq![entry],
            None => Seq::empty(),
        };
        proof {
            lemma_first_of(s, 10, from);
        }
        if brk >= s.len() {
            here
        } else {
            here + info_entries(s, brk + 1)
        }
    }
}

/// The entries of the server's report: for each line that has one, its name
/// and its value, in the order of the lines. A reply that holds no text is
/// a protocol error.
pub fn info_reply(resp: &RespValue) -> (r: Result<Vec<(String, String)>, CacheError>)
    ensures
        resp@.text() matches Some(report) ==> (r matches Ok(entries) && entries.deep_view()
            == info_entries(encode_utf8(report), 0)),
        resp@.text() is None ==> (r matches Err(CacheError::Protocol(why)) && why@
            == "INFO did not return string"@),
{
    let report = match resp.as_string() {
        Some(report) => report,
        None => {
            return Err(CacheError::Protocol(String::from_str("INFO did not return string")));
        },
    };
    let bytes = report.as_str().as_bytes();
    let ghost s = bytes@;
    let mut entries: Vec<(String, String)> = Vec::new();
    let mut pos: usize = 0;
    assert(entries.deep_view() + info_entries(s, 0) =~= info_entries(s, 0));
    while pos < bytes.len()
        invariant
            pos <= bytes.len(),
            s == bytes@,
            entries.deep_view() + info_entries(s, pos as int) == info_entries(s, 0),
        decreases bytes.len() - pos,
    {
        let brk = find_byte(bytes, 10, pos);
        let end: usize = if brk < bytes.len() && brk > pos && bytes[brk - 1] == 13 {
            brk - 1
        } else {
            brk
        };
        let ghost before = entries.deep_view();
        let ghost rest = if brk >= bytes.len() {
            Seq::<(Seq<char>, Seq<char>)>::empty()
        } else {
            info_entries(s, brk + 1)
        };
        if end > pos && bytes[pos] != 35 {
            let colon = find_byte(bytes, 58, pos);
            if colon < end {
                let key = string_from_utf8(copy_range(bytes, pos, colon));
                let value = string_from_utf8(copy_range(bytes, colon + 1, end));
                match (key, value) {
                    (Some(key), Some(value)) => {
                        entries.push((key, value));
                        assert(entries.deep_view() =~= before.push((key@, value@)));
                    },
                    _ => {},
                }
            }
        }
        assert(entries.deep_view() + rest =~= info_entries(s, 0));
        pos = if brk >= bytes.len() {
            bytes.len()
        } else {
            brk + 1
        };
    }
    assert(entries.deep_view() + info_entries(s, pos as int) =~= entries.deep_view());
    Ok(entries)
}

} // verus!
