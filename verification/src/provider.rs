//! The provider side: the address of a provider's stream and the reading of
//! its messages into ticks.

use vstd::prelude::*;
use crate::amount::{amount_of_text, parse_amount, parse_wide_amount, wide_amount_of_text};
use crate::candle::{Tick, TickView};
use crate::text::{lowercase, texts, to_lowercase};

verus! {

/// A member of a JSON object, as far as a message is read: the whole
/// number it holds, if it holds one that fits a machine integer, and the
/// string it holds, if it holds one.
#[derive(Debug, PartialEq, Eq)]
pub struct Member {
    pub integer: Option<i64>,
    pub text: Option<String>,
}

/// The mathematical content of a [`Member`].
pub struct MemberView {
    pub integer: Option<int>,
    pub text: Option<Seq<char>>,
}

impl View for Member {
    type V = MemberView;

    open spec fn view(&self) -> MemberView {
        MemberView {
            integer: match self.integer {
                Some(number) => Some(number as int),
                None => None,
            },
            text: match self.text {
                Some(text) => Some(text@),
                None => None,
            },
        }
    }
}

/// The views of a list of named members.
pub open spec fn member_views(members: Seq<(String, Member)>) -> Seq<(Seq<char>, MemberView)> {
    Seq::new(members.len(), |i: int| (members[i].0@, members[i].1@))
}

/// The members of the object that a JSON document holds under the name
/// `outer` and, within that, under the name `inner`, each with its own name,
/// in the order in which `serde_json` keeps them; `None` where the message
/// is no JSON document or holds no object there.
pub uninterp spec fn object_members(message: Seq<char>, outer: Seq<char>, inner: Seq<char>) -> Option<
    Seq<(Seq<char>, MemberView)>,
>;

/// `serde_json::from_str` into a `serde_json::Value`, then the value's
/// members of the two given names, one within the other,
/// `Value::as_object` on what is found there, and `Value::as_i64` and
/// `Value::as_str` on each member of that object. The contract only gives
/// the result a name: it depends on nothing but the message and the two
/// names.
#[verifier::external_body]
fn read_object(message: &str, outer: &str, inner: &str) -> (members: Option<Vec<(String, Member)>>)
    ensures
        match members {
            Some(list) => object_members(message@, outer@, inner@) == Some(member_views(list@)),
            None => object_members(message@, outer@, inner@) is None,
        },
{
    let document: serde_json::Value = serde_json::from_str(message).ok()?;
    let object = document[outer][inner].as_object()?;
    Some(object.iter().map(|(name, value)| (name.clone(), Member {
        integer: value.as_i64(),
        text: value.as_str().map(str::to_owned),
    })).collect())
}

/// The first member of the given name.
pub open spec fn member_named(members: Seq<(Seq<char>, MemberView)>, name: Seq<char>) -> Option<
    MemberView,
>
    decreases members.len(),
{
    if members.len() == 0 {
        None
    } else if members[0].0 == name {
        Some(members[0].1)
    } else {
        member_named(members.drop_first(), name)
    }
}

/// The whole number found under a name.
pub open spec fn integer_named(members: Seq<(Seq<char>, MemberView)>, name: Seq<char>) -> Option<
    int,
> {
    match member_named(members, name) {
        Some(member) => member.integer,
        None => None,
    }
}

/// The string found under a name.
pub open spec fn text_named(members: Seq<(Seq<char>, MemberView)>, name: Seq<char>) -> Option<
    Seq<char>,
> {
    match member_named(members, name) {
        Some(member) => member.text,
        None => None,
    }
}

/// The amount that the string found under a name denotes.
pub open spec fn amount_named(members: Seq<(Seq<char>, MemberView)>, name: Seq<char>) -> Option<
    int,
> {
    match text_named(members, name) {
        Some(text) => amount_of_text(text),
        None => None,
    }
}

/// The amount of up to 128 bits that the string found under a name denotes.
pub open spec fn wide_amount_named(members: Seq<(Seq<char>, MemberView)>, name: Seq<char>) -> Option<
    int,
> {
    match text_named(members, name) {
        Some(text) => wide_amount_of_text(text),
        None => None,
    }
}

/// The quote volume of a kline: the amount under `q` where there is one,
/// else nothing.
pub open spec fn quote_volume_of(members: Seq<(Seq<char>, MemberView)>) -> int {
    match wide_amount_named(members, "q"@) {
        Some(units) => units,
        None => 0,
    }
}

/// The tick that the members of a Binance kline describe: open and close
/// time under `t` and `T`, the symbol under `s`, and, as amounts in decimal
/// notation, open under `o`, last price under `c`, high under `h`, low under
/// `l` and volume under `v`. The interval must be there as a string under
/// `i`. `None` where one of these nine is missing or of another kind. The
/// quote volume is taken from `q` where it holds an amount. The two volumes
/// may take up to 128 bits, the prices 64.
pub open spec fn tick_of_kline(members: Seq<(Seq<char>, MemberView)>) -> Option<TickView> {
    if integer_named(members, "t"@) is Some && integer_named(members, "T"@) is Some && text_named(
        members,
        "s"@,
    ) is Some && text_named(members, "i"@) is Some && amount_named(members, "o"@) is Some
        && amount_named(members, "c"@) is Some && amount_named(members, "h"@) is Some
        && amount_named(members, "l"@) is Some && wide_amount_named(members, "v"@) is Some {
        Some(
            TickView {
                symbol: text_named(members, "s"@).unwrap(),
                open_time_ms: integer_named(members, "t"@).unwrap(),
                close_time_ms: integer_named(members, "T"@).unwrap(),
                open: amount_named(members, "o"@).unwrap(),
                price: amount_named(members, "c"@).unwrap(),
                high: amount_named(members, "h"@).unwrap(),
                low: amount_named(members, "l"@).unwrap(),
                volume: wide_amount_named(members, "v"@).unwrap(),
                quote_volume: quote_volume_of(members),
            },
        )
    } else {
        None
    }
}

/// The tick that a Binance message describes: the one of the kline that
/// the message holds under `data`, `k`.
pub open spec fn tick_of_message(message: Seq<char>) -> Option<TickView> {
    match object_members(message, "data"@, "k"@) {
        Some(members) => tick_of_kline(members),
        None => None,
    }
}

/// The tick that a message of the named provider describes. Binance is the
/// only provider.
pub open spec fn tick_of_provider_message(message: Seq<char>, provider: Seq<char>) -> Option<
    TickView,
> {
    if provider == "Binance"@ {
        tick_of_message(message)
    } else {
        None
    }
}

fn find_member<'a>(members: &'a Vec<(String, Member)>, name: &str) -> (found: Option<&'a Member>)
    ensures
        match found {
            Some(member) => member_named(member_views(members@), name@) == Some(member@),
            None => member_named(member_views(members@), name@) is None,
        },
{
    let ghost all = member_views(members@);
    let mut i: usize = 0;
    assert(all.skip(0) =~= all);
    while i < members.len()
        invariant
            i <= members@.len(),
            all == member_views(members@),
            member_named(all, name@) == member_named(all.skip(i as int), name@),
        decreases members@.len() - i,
    {
        assert(all.skip(i as int).drop_first() =~= all.skip(i as int + 1));
        if members[i].0.as_str().eq(name) {
            return Some(&members[i].1);
        }
        i += 1;
    }
    None
}

fn integer_member(members: &Vec<(String, Member)>, name: &str) -> (found: Option<i64>)
    ensures
        match found {
            Some(number) => integer_named(member_views(members@), name@) == Some(number as int),
            None => integer_named(member_views(members@), name@) is None,
        },
{
    match find_member(members, name) {
        Some(member) => member.integer,
        None => None,
    }
}

fn text_member<'a>(members: &'a Vec<(String, Member)>, name: &str) -> (found: Option<&'a String>)
    ensures
        match found {
            Some(text) => text_named(member_views(members@), name@) == Some(text@),
            None => text_named(member_views(members@), name@) is None,
        },
{
    match find_member(members, name) {
        Some(member) => member.text.as_ref(),
        None => None,
    }
}

fn amount_member(members: &Vec<(String, Member)>, name: &str) -> (found: Option<i64>)
    ensures
        match found {
            Some(units) => amount_named(member_views(members@), name@) == Some(units as int),
            None => amount_named(member_views(members@), name@) is None,
        },
{
    match text_member(members, name) {
        Some(text) => parse_amount(text.as_str()),
        None => None,
    }
}

fn wide_amount_member(members: &Vec<(String, Member)>, name: &str) -> (found: Option<i128>)
    ensures
        match found {
            Some(units) => wide_amount_named(member_views(members@), name@) == Some(units as int),
            None => wide_amount_named(member_views(members@), name@) is None,
        },
{
    match text_member(members, name) {
        Some(text) => parse_wide_amount(text.as_str()),
        None => None,
    }
}

/// Makes the tick that the members of a Binance kline describe.
pub fn tick_of_members(members: &Vec<(String, Member)>) -> (tick: Option<Tick>)
    ensures
        match tick {
            Some(made) => tick_of_kline(member_views(members@)) == Some(made@),
            None => tick_of_kline(member_views(members@)) is None,
        },
{
    let open_time_ms = integer_member(members, "t")?;
    let close_time_ms = integer_member(members, "T")?;
    let symbol = text_member(members, "s")?;
    text_member(members, "i")?;
    let open = amount_member(members, "o")?;
    let price = amount_member(members, "c")?;
    let high = amount_member(members, "h")?;
    let low = amount_member(members, "l")?;
    let volume = wide_amount_member(members, "v")?;
    let quote_volume = match wide_amount_member(members, "q") {
        Some(units) => units,
        None => 0,
    };
    Some(
        Tick {
            symbol: symbol.clone(),
            open_time_ms,
            close_time_ms,
            open,
            price,
            high,
            low,
            volume,
            quote_volume,
        },
    )
}

/// Reads a Binance message into the tick it describes, if it describes one.
pub fn parse_message(message: &str) -> (tick: Option<Tick>)
    ensures
        match tick {
            Some(made) => tick_of_message(message@) == Some(made@),
            None => tick_of_message(message@) is None,
        },
{
    match read_object(message, "data", "k") {
        Some(members) => tick_of_members(&members),
        None => None,
    }
}

/// Reads a message of the named provider into the tick it describes. A
/// provider other than Binance has no messages that describe a tick.
pub fn parse_candle(message: &str, provider: &str) -> (tick: Option<Tick>)
    ensures
        match tick {
            Some(made) => tick_of_provider_message(message@, provider@) == Some(made@),
            None => tick_of_provider_message(message@, provider@) is None,
        },
{
    if provider.eq("Binance") {
        parse_message(message)
    } else {
        None
    }
}

/// The stream names of a list of symbols, already in lowercase: each symbol
/// followed by `@` and the stream type, with `/` between them.
pub open spec fn stream_names(symbols: Seq<Seq<char>>, stream_type: Seq<char>) -> Seq<char>
    decreases symbols.len(),
{
    if symbols.len() == 0 {
        Seq::empty()
    } else if symbols.len() == 1 {
        symbols[0] + "@"@ + stream_type
    } else {
        stream_names(symbols.drop_last(), stream_type) + "/"@ + symbols.last() + "@"@
            + stream_type
    }
}

/// The lowercase forms of a list of texts.
pub open spec fn lowered(symbols: Seq<Seq<char>>) -> Seq<Seq<char>> {
    Seq::new(symbols.len(), |i: int| lowercase(symbols[i]))
}

/// The address of Binance's combined stream for symbols already in
/// lowercase.
pub open spec fn binance_url(symbols: Seq<Seq<char>>, stream_type: Seq<char>) -> Seq<char> {
    "wss://stream.binance.com:9443/stream?streams="@ + stream_names(symbols, stream_type)
}

/// The address of the named provider's stream for the symbols; empty for a
/// provider other than Binance.
pub open spec fn stream_url(provider: Seq<char>, symbols: Seq<Seq<char>>, stream_type: Seq<char>) -> Seq<
    char,
> {
    if provider == "Binance"@ {
        binance_url(lowered(symbols), stream_type)
    } else {
        Seq::empty()
    }
}

/// Writes the address of Binance's combined stream for symbols that are
/// already in lowercase.
pub fn binance_stream_url(symbols: &Vec<String>, stream_type: &str) -> (url: String)
    ensures
        url@ == binance_url(texts(symbols@), stream_type@),
{
    let ghost names = texts(symbols@);
    let mut list = String::new();
    let mut i: usize = 0;
    while i < symbols.len()
        invariant
            i <= symbols@.len(),
            names == texts(symbols@),
            list@ == stream_names(names.take(i as int), stream_type@),
        decreases symbols@.len() - i,
    {
        if i > 0 {
            list.append("/");
        }
        list.append(symbols[i].as_str());
        list.append("@");
        list.append(stream_type);
        proof {
            let upto = names.take(i as int + 1);
            assert(upto.drop_last() =~= names.take(i as int));
        }
        i += 1;
    }
    assert(names.take(names.len() as int) =~= names);
    let mut url = String::from_str("wss://stream.binance.com:9443/stream?streams=");
    url.append(list.as_str());
    url
}

/// Writes the address of the named provider's stream for the symbols, which
/// are put in lowercase. For a provider other than Binance the address is
/// empty.
pub fn build_stream_url(provider: &str, symbols: &[String], stream_type: &str) -> (url: String)
    ensures
        url@ == stream_url(provider@, texts(symbols@), stream_type@),
{
    if !provider.eq("Binance") {
        return String::new();
    }
    let mut lower: Vec<String> = Vec::new();
    let mut i: usize = 0;
    while i < symbols.len()
        invariant
            i <= symbols@.len(),
            lower@.len() == i,
            forall|k: int| 0 <= k < i ==> (#[trigger] lower@[k])@ == lowercase(symbols@[k]@),
        decreases symbols@.len() - i,
    {
        lower.push(to_lowercase(symbols[i].as_str()));
        i += 1;
    }
    assert(texts(lower@) =~= lowered(texts(symbols@)));
    binance_stream_url(&lower, stream_type)
}

} // verus!
