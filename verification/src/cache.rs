//! The request and reply codec of the cache protocol (RESP).

pub mod commands;

use crate::foreign::{io_error_text, string_from_utf8, string_from_utf8_lossy, utf8_lossy};
use crate::text::{
    address_chars, address_string, decimal_bytes, parse_decimal, parsed_decimal, push_decimal,
};
use vstd::prelude::*;
use vstd::string::StringSliceAdditionalSpecFns;
use vstd::utf8::{decode_utf8, valid_utf8};

verus! {

/// Where the cache server listens.
pub struct CacheOptions {
    pub host: String,
    pub port: u16,
}

impl Default for CacheOptions {
    fn default() -> (r: Self)
        ensures
            r.host@ == "localhost"@,
            r.port == 6379,
    {
        CacheOptions { host: String::from_str("localhost"), port: 6379 }
    }
}

impl CacheOptions {
    /// The address to connect to: the host, a colon, the port.
    pub fn address(&self) -> (addr: String)
        ensures
            addr@ == address_chars(self.host@, self.port),
    {
        address_string(self.host.as_str(), self.port)
    }
}

/// What can go wrong between the client and the cache server.
#[derive(Debug)]
pub enum CacheError {
    Connection(String),
    Io(std::io::Error),
    Protocol(String),
    Server(String),
}

impl CacheError {
    /// The label that `to_string` puts before the detail.
    pub open spec fn label(self) -> Seq<char> {
        match self {
            CacheError::Connection(_) => "Connection error: "@,
            CacheError::Io(_) => "IO error: "@,
            CacheError::Protocol(_) => "Protocol error: "@,
            CacheError::Server(_) => "Server error: "@,
        }
    }

    /// The error as one line of text: the label of its kind, then the detail.
    pub fn to_string(&self) -> (s: String)
        ensures
            self.label().is_prefix_of(s@),
            self matches CacheError::Connection(m) ==> s@ == self.label() + m@,
            self matches CacheError::Protocol(m) ==> s@ == self.label() + m@,
            self matches CacheError::Server(m) ==> s@ == self.label() + m@,
    {
        match self {
            CacheError::Connection(m) => String::from_str("Connection error: ").concat(m.as_str()),
            CacheError::Io(e) => {
                let detail = io_error_text(e);
                String::from_str("IO error: ").concat(detail.as_str())
            },
            CacheError::Protocol(m) => String::from_str("Protocol error: ").concat(m.as_str()),
            CacheError::Server(m) => String::from_str("Server error: ").concat(m.as_str()),
        }
    }
}

impl From<std::io::Error> for CacheError {
    fn from(e: std::io::Error) -> (r: Self) {
        CacheError::Io(e)
    }
}

impl vstd::std_specs::convert::FromSpecImpl<std::io::Error> for CacheError {
    open spec fn obeys_from_spec() -> bool {
        true
    }

    open spec fn from_spec(e: std::io::Error) -> Self {
        CacheError::Io(e)
    }
}

/// A reply value of the cache protocol.
#[derive(Debug)]
pub enum RespValue {
    SimpleString(String),
    Error(String),
    Integer(i64),
    BulkString(Option<String>),
    Array(Option<Vec<RespValue>>),
}

/// What a `RespValue` holds, with each string as its characters.
pub enum RespModel {
    SimpleString(Seq<char>),
    Error(Seq<char>),
    Integer(i64),
    BulkString(Option<Seq<char>>),
    Array(Option<Seq<RespModel>>),
}

impl RespValue {
    /// The value with each string as its characters.
    pub open spec fn model(self) -> RespModel
        decreases self,
    {
        match self {
            RespValue::SimpleString(s) => RespModel::SimpleString(s@),
            RespValue::Error(s) => RespModel::Error(s@),
            RespValue::Integer(i) => RespModel::Integer(i),
            RespValue::BulkString(None) => RespModel::BulkString(None),
            RespValue::BulkString(Some(s)) => RespModel::BulkString(Some(s@)),
            RespValue::Array(None) => RespModel::Array(None),
            RespValue::Array(Some(items)) => RespModel::Array(Some(models(items@))),
        }
    }
}

/// The models of a run of values, in order.
pub open spec fn models(items: Seq<RespValue>) -> Seq<RespModel>
    decreases items,
{
    if items.len() == 0 {
        Seq::empty()
    } else {
        models(items.drop_last()).push(items.last().model())
    }
}

impl View for RespValue {
    type V = RespModel;

    open spec fn view(&self) -> RespModel {
        self.model()
    }
}

/// The models of a run of values are the values' models, place by place.
pub proof fn lemma_models(items: Seq<RespValue>)
    ensures
        models(items).len() == items.len(),
        forall|i: int| 0 <= i < items.len() ==> (#[trigger] models(items)[i]) == items[i]@,
    decreases items.len(),
{
    if items.len() > 0 {
        lemma_models(items.drop_last());
    }
}

impl Clone for RespValue {
    fn clone(&self) -> (r: Self)
        ensures
            r@ == self@,
        decreases self,
    {
        match self {
            RespValue::SimpleString(s) => RespValue::SimpleString(s.clone()),
            RespValue::Error(s) => RespValue::Error(s.clone()),
            RespValue::Integer(i) => RespValue::Integer(*i),
            RespValue::BulkString(None) => RespValue::BulkString(None),
            RespValue::BulkString(Some(s)) => RespValue::BulkString(Some(s.clone())),
            RespValue::Array(None) => RespValue::Array(None),
            RespValue::Array(Some(items)) => {
                let mut copy: Vec<RespValue> = Vec::new();
                let mut i: usize = 0;
                while i < items.len()
                    invariant
                        *self == RespValue::Array(Some(*items)),
                        i <= items.len(),
                        copy.len() == i,
                        forall|j: int| 0 <= j < i ==> (#[trigger] copy@[j])@ == items@[j]@,
                    decreases items.len() - i,
                {
                    proof {
                        vstd::std_specs::vec::axiom_vec_index_decreases(*items, i as int);
                        assert(decreases_to!(*self => self->Array_0));
                        assert(decreases_to!(self->Array_0 => self->Array_0->Some_0));
                    }
                    copy.push(items[i].clone());
                    i += 1;
                }
                let r = RespValue::Array(Some(copy));
                proof {
                    lemma_models(copy@);
                    lemma_models(items@);
                    assert(models(copy@) =~= models(items@));
                }
                r
            },
        }
    }
}

impl RespModel {
    /// The text of a simple or a present bulk string; `None` for any other value.
    pub open spec fn text(self) -> Option<Seq<char>> {
        match self {
            RespModel::SimpleString(s) => Some(s),
            RespModel::BulkString(Some(s)) => Some(s),
            _ => None,
        }
    }

    /// The number of an integer reply; `None` for any other value.
    pub open spec fn integer(self) -> Option<i64> {
        match self {
            RespModel::Integer(i) => Some(i),
            _ => None,
        }
    }
}

impl RespValue {
    /// The text of a simple or a present bulk string.
    pub fn as_string(&self) -> (r: Option<String>)
        ensures
            r is Some <==> self@.text() is Some,
            r matches Some(s) ==> self@.text() == Some(s@),
    {
        match self {
            RespValue::SimpleString(s) => Some(s.clone()),
            RespValue::BulkString(Some(s)) => Some(s.clone()),
            _ => None,
        }
    }

    /// The number of an integer reply.
    pub fn as_integer(&self) -> (r: Option<i64>)
        ensures
            r == self@.integer(),
    {
        match self {
            RespValue::Integer(i) => Some(*i),
            _ => None,
        }
    }

    /// The items of a present array.
    pub fn as_array(&self) -> (r: Option<&Vec<RespValue>>)
        ensures
            r == (match *self {
                RespValue::Array(Some(items)) => Some(&items),
                _ => None,
            }),
    {
        match self {
            RespValue::Array(Some(items)) => Some(items),
            _ => None,
        }
    }

    /// Whether the reply is the simple string `OK`.
    pub fn is_ok(&self) -> (r: bool)
        ensures
            r == (self@ == RespModel::SimpleString("OK"@)),
    {
        match self {
            RespValue::SimpleString(s) => *s == String::from_str("OK"),
            _ => false,
        }
    }
}

/// The two bytes that end every line of the protocol.
pub open spec fn crlf() -> Seq<u8> {
    seq![13u8, 10u8]
}

/// One argument on the wire: `$`, its length in bytes, a line end, the
/// bytes, a line end.
pub open spec fn bulk_bytes(arg: Seq<u8>) -> Seq<u8> {
    seq![36u8] + decimal_bytes(arg.len()) + crlf() + arg + crlf()
}

/// The arguments on the wire, one after the other.
pub open spec fn bulks_bytes(args: Seq<Seq<u8>>) -> Seq<u8>
    decreases args.len(),
{
    if args.len() == 0 {
        Seq::empty()
    } else {
        bulks_bytes(args.drop_last()) + bulk_bytes(args.last())
    }
}

/// A command on the wire: `*`, the number of arguments, a line end, then
/// each argument as a bulk string.
pub open spec fn command_bytes(args: Seq<Seq<u8>>) -> Seq<u8> {
    seq![42u8] + decimal_bytes(args.len()) + crlf() + bulks_bytes(args)
}

/// The UTF-8 bytes of each argument.
pub open spec fn args_bytes(args: Seq<&str>) -> Seq<Seq<u8>> {
    args.map_values(|a: &str| a.spec_bytes())
}

/// Appends `bytes` to `buf`.
fn push_all(buf: &mut Vec<u8>, bytes: &[u8])
    ensures
        final(buf)@ == old(buf)@ + bytes@,
{
    let mut i: usize = 0;
    while i < bytes.len()
        invariant
            i <= bytes.len(),
            buf@ == old(buf)@ + bytes@.take(i as int),
        decreases bytes.len() - i,
    {
        buf.push(bytes[i]);
        i += 1;
        assert(buf@ =~= old(buf)@ + bytes@.take(i as int));
    }
    assert(bytes@.take(i as int) =~= bytes@);
}

/// Appends one argument as a bulk string.
fn push_bulk(buf: &mut Vec<u8>, arg: &[u8])
    ensures
        final(buf)@ == old(buf)@ + bulk_bytes(arg@),
{
    buf.push(36);
    push_decimal(buf, arg.len() as u64);
    buf.push(13);
    buf.push(10);
    push_all(buf, arg);
    buf.push(13);
    buf.push(10);
    assert(buf@ =~= old(buf)@ + bulk_bytes(arg@));
}

/// Encodes a command and its arguments for the wire.
pub fn encode_command(args: &[&str]) -> (buf: Vec<u8>)
    ensures
        buf@ == command_bytes(args_bytes(args@)),
{
    let mut buf: Vec<u8> = Vec::new();
    buf.push(42);
    push_decimal(&mut buf, args.len() as u64);
    buf.push(13);
    buf.push(10);
    let ghost head = buf@;
    let ghost all = args_bytes(args@);
    let mut i: usize = 0;
    assert(all.take(0) =~= Seq::<Seq<u8>>::empty());
    while i < args.len()
        invariant
            i <= args.len(),
            all == args_bytes(args@),
            buf@ == head + bulks_bytes(all.take(i as int)),
        decreases args.len() - i,
    {
        push_bulk(&mut buf, args[i].as_bytes());
        proof {
            let next = all.take(i + 1);
            assert(next.drop_last() =~= all.take(i as int));
            assert(next.last() == args@[i as int].spec_bytes());
        }
        i += 1;
    }
    assert(all.take(i as int) =~= all);
    assert(buf@ =~= command_bytes(all));
    buf
}

/// What reading one reply from a byte stream comes to.
pub enum RespParse {
    /// A whole reply, and the position just behind it.
    Value(RespModel, int),
    /// The bytes end before the reply does.
    Incomplete,
    /// The bytes are no reply; the text says why.
    Malformed(Seq<char>),
}

/// The position of the first byte `b` of `s` at or after `from`, or the
/// length of `s` where there is none.
pub open spec fn first_of(s: Seq<u8>, b: u8, from: int) -> int
    decreases s.len() - from,
{
    if from < 0 || from >= s.len() {
        s.len() as int
    } else if s[from] == b {
        from
    } else {
        first_of(s, b, from + 1)
    }
}

/// The position of the first line feed at or after `from`, or the length of
/// `s` where there is none.
pub open spec fn line_break(s: Seq<u8>, from: int) -> int {
    first_of(s, 10, from)
}

/// The line that runs from `from` to the line feed at `brk`, without the
/// carriage return that may stand before the line feed.
pub open spec fn line_of(s: Seq<u8>, from: int, brk: int) -> Seq<u8> {
    if brk > from && s[brk - 1] == 13 {
        s.subrange(from, brk - 1)
    } else {
        s.subrange(from, brk)
    }
}

/// Where `first_of` points: at the byte, with none like it before, or at
/// the end.
pub proof fn lemma_first_of(s: Seq<u8>, b: u8, from: int)
    requires
        0 <= from <= s.len(),
    ensures
        from <= first_of(s, b, from) <= s.len(),
        first_of(s, b, from) < s.len() ==> s[first_of(s, b, from)] == b,
        forall|i: int| from <= i < first_of(s, b, from) ==> s[i] != b,
    decreases s.len() - from,
{
    if from < s.len() && s[from] != b {
        lemma_first_of(s, b, from + 1);
    }
}

/// A reply whose line holds text: the text where it is well-formed UTF-8.
pub open spec fn text_reply(content: Seq<u8>, error: bool, next: int) -> RespParse {
    if !valid_utf8(content) {
        RespParse::Malformed("Invalid UTF-8 in response line"@)
    } else if error {
        RespParse::Value(RespModel::Error(decode_utf8(content)), next)
    } else {
        RespParse::Value(RespModel::SimpleString(decode_utf8(content)), next)
    }
}

/// A bulk string whose length line has been read: `len` bytes from `next`
/// on, then two bytes that end it. A negative length stands for no string.
pub open spec fn bulk_reply(s: Seq<u8>, next: int, len: int) -> RespParse {
    if len < 0 {
        RespParse::Value(RespModel::BulkString(None), next)
    } else if s.len() < next + len + 2 {
        RespParse::Incomplete
    } else if !valid_utf8(s.subrange(next, next + len)) {
        RespParse::Malformed("Invalid UTF-8 in bulk string"@)
    } else {
        RespParse::Value(
            RespModel::BulkString(Some(decode_utf8(s.subrange(next, next + len)))),
            next + len + 2,
        )
    }
}

/// The reply that starts at `pos`.
///
/// A reply is a line that ends in a line feed, with or without a carriage
/// return before it. The first byte of the line says what follows: `+` a
/// simple string, `-` an error text, `:` an integer, `$` the length of a
/// bulk string, `*` the number of replies in an array.
pub open spec fn reply_at(s: Seq<u8>, pos: int) -> RespParse
    decreases s.len() - pos, 0nat,
{
    let brk = line_break(s, pos);
    if pos < 0 || brk >= s.len() {
        RespParse::Incomplete
    } else {
        let line = line_of(s, pos, brk);
        let next = brk + 1;
        if line.len() == 0 {
            RespParse::Malformed("Empty response line"@)
        } else {
            let content = line.skip(1);
            if line[0] == 43 {
                text_reply(content, false, next)
            } else if line[0] == 45 {
                text_reply(content, true, next)
            } else if line[0] == 58 {
                match parsed_decimal(content) {
                    Some(i) => RespParse::Value(RespModel::Integer(i), next),
                    None => RespParse::Malformed("Invalid integer: "@ + utf8_lossy(content)),
                }
            } else if line[0] == 36 {
                match parsed_decimal(content) {
                    Some(len) => bulk_reply(s, next, len as int),
                    None => RespParse::Malformed(
                        "Invalid bulk string length: "@ + utf8_lossy(content),
                    ),
                }
            } else if line[0] == 42 {
                match parsed_decimal(content) {
                    Some(count) => if count < 0 {
                        RespParse::Value(RespModel::Array(None), next)
                    } else {
                        proof {
                            lemma_first_of(s, 10, pos);
                        }
                        replies_at(s, next, count as nat, Seq::empty())
                    },
                    None => RespParse::Malformed(
                        "Invalid array length: "@ + utf8_lossy(content),
                    ),
                }
            } else {
                RespParse::Malformed("Unknown RESP prefix: "@ + utf8_lossy(line.take(1)))
            }
        }
    }
}

/// The array made of `done` and of the `count` replies that start at `pos`.
/// A reply takes at least its line feed and ends within the bytes, so the
/// position always moves on and stays in range.
pub open spec fn replies_at(s: Seq<u8>, pos: int, count: nat, done: Seq<RespModel>) -> RespParse
    decreases s.len() - pos, count + 1,
{
    if count == 0 {
        RespParse::Value(RespModel::Array(Some(done)), pos)
    } else {
        match reply_at(s, pos) {
            RespParse::Value(v, end) => if pos < end <= s.len() {
                replies_at(s, end, (count - 1) as nat, done.push(v))
            } else {
                RespParse::Incomplete
            },
            RespParse::Incomplete => RespParse::Incomplete,
            RespParse::Malformed(why) => RespParse::Malformed(why),
        }
    }
}

/// What a result of `parse_resp` says, as a `RespParse`.
pub open spec fn reply_of(r: Result<Option<(RespValue, usize)>, CacheError>) -> RespParse {
    match r {
        Ok(Some((v, end))) => RespParse::Value(v@, end as int),
        Ok(None) => RespParse::Incomplete,
        Err(CacheError::Protocol(why)) => RespParse::Malformed(why@),
        Err(_) => RespParse::Malformed(Seq::empty()),
    }
}

/// The position of the first byte `b` at or after `from`.
pub(crate) fn find_byte(input: &[u8], b: u8, from: usize) -> (at: usize)
    requires
        from <= input.len(),
    ensures
        at == first_of(input@, b, from as int),
        from <= at <= input.len(),
{
    let mut i: usize = from;
    while i < input.len() && input[i] != b
        invariant
            from <= i <= input.len(),
            first_of(input@, b, from as int) == first_of(input@, b, i as int),
        decreases input.len() - i,
    {
        i += 1;
    }
    i
}

/// A protocol error whose text is `label` and then `content`, read leniently.
fn malformed(label: &str, content: &[u8]) -> (e: CacheError)
    ensures
        e matches CacheError::Protocol(why) && why@ == label@ + utf8_lossy(content@),
{
    let detail = string_from_utf8_lossy(content);
    CacheError::Protocol(String::from_str(label).concat(detail.as_str()))
}

/// A copy of the bytes of `input` from `from` up to `to`.
pub(crate) fn copy_range(input: &[u8], from: usize, to: usize) -> (out: Vec<u8>)
    requires
        from <= to <= input.len(),
    ensures
        out@ == input@.subrange(from as int, to as int),
{
    let mut out: Vec<u8> = Vec::new();
    push_all(&mut out, vstd::slice::slice_subrange(input, from, to));
    assert(out@ =~= input@.subrange(from as int, to as int));
    out
}

/// Reads the reply that starts at `pos`.
fn parse_at(input: &[u8], pos: usize) -> (r: Result<Option<(RespValue, usize)>, CacheError>)
    requires
        pos <= input.len(),
    ensures
        reply_of(r) == reply_at(input@, pos as int),
        r matches Err(e) ==> e is Protocol,
        r matches Ok(Some((_, end))) ==> pos < end <= input.len(),
    decreases input.len() - pos,
{
    let brk = find_byte(input, 10, pos);
    if brk >= input.len() {
        return Ok(None);
    }
    let line_end: usize = if brk > pos && input[brk - 1] == 13 {
        brk - 1
    } else {
        brk
    };
    let next: usize = brk + 1;
    let ghost s = input@;
    let ghost line = line_of(s, pos as int, brk as int);
    assert(line =~= s.subrange(pos as int, line_end as int));
    if line_end == pos {
        return Err(CacheError::Protocol(String::from_str("Empty response line")));
    }
    let prefix = input[pos];
    let content = vstd::slice::slice_subrange(input, pos + 1, line_end);
    assert(content@ =~= line.skip(1));
    assert(line[0] == prefix);
    if prefix == 43 || prefix == 45 {
        match string_from_utf8(copy_range(input, pos + 1, line_end)) {
            Some(text) => if prefix == 45 {
                Ok(Some((RespValue::Error(text), next)))
            } else {
                Ok(Some((RespValue::SimpleString(text), next)))
            },
            None => Err(CacheError::Protocol(String::from_str("Invalid UTF-8 in response line"))),
        }
    } else if prefix == 58 {
        match parse_decimal(content) {
            Some(i) => Ok(Some((RespValue::Integer(i), next))),
            None => Err(malformed("Invalid integer: ", content)),
        }
    } else if prefix == 36 {
        match parse_decimal(content) {
            Some(len) => {
                if len < 0 {
                    return Ok(Some((RespValue::BulkString(None), next)));
                }
                let room: u64 = (input.len() - next) as u64;
                if room < 2 || (len as u64) > room - 2 {
                    return Ok(None);
                }
                let stop: usize = next + (len as usize);
                match string_from_utf8(copy_range(input, next, stop)) {
                    Some(text) => Ok(Some((RespValue::BulkString(Some(text)), stop + 2))),
                    None => Err(
                        CacheError::Protocol(String::from_str("Invalid UTF-8 in bulk string")),
                    ),
                }
            },
            None => Err(malformed("Invalid bulk string length: ", content)),
        }
    } else if prefix == 42 {
        match parse_decimal(content) {
            Some(count) => {
                if count < 0 {
                    return Ok(Some((RespValue::Array(None), next)));
                }
                let mut items: Vec<RespValue> = Vec::new();
                let mut cur: usize = next;
                let mut k: i64 = 0;
                while k < count
                    invariant
                        0 <= k <= count,
                        pos < next <= cur <= input.len(),
                        reply_at(input@, pos as int) == replies_at(
                            input@,
                            cur as int,
                            (count - k) as nat,
                            models(items@),
                        ),
                    decreases count - k,
                {
                    match parse_at(input, cur) {
                        Ok(Some((item, end))) => {
                            proof {
                                assert(items@.push(item).drop_last() =~= items@);
                            }
                            items.push(item);
                            cur = end;
                            k += 1;
                        },
                        Ok(None) => {
                            return Ok(None);
                        },
                        Err(e) => {
                            return Err(e);
                        },
                    }
                }
                Ok(Some((RespValue::Array(Some(items)), cur)))
            },
            None => Err(malformed("Invalid array length: ", content)),
        }
    } else {
        assert(line.take(1) =~= s.subrange(pos as int, pos + 1));
        Err(malformed("Unknown RESP prefix: ", vstd::slice::slice_subrange(input, pos, pos + 1)))
    }
}

/// Reads one reply from the start of `input`.
///
/// `Ok(Some(..))` holds the reply and the number of bytes it took,
/// `Ok(None)` says that the bytes end before the reply does, and an error
/// of kind `Protocol` that they are no reply.
pub fn parse_resp(input: &[u8]) -> (r: Result<Option<(RespValue, usize)>, CacheError>)
    ensures
        reply_of(r) == reply_at(input@, 0),
        r matches Err(e) ==> e is Protocol,
        r matches Ok(Some((_, used))) ==> 0 < used <= input.len(),
{
    parse_at(input, 0)
}

} // verus!
