//! The market channel: what to subscribe to, what a message means, and the best
//! prices that the messages add up to.

use vstd::hash_map::StringHashMap;
use vstd::prelude::*;
use vstd::string::*;

use crate::decimal::{parse_rounded, spells_no_number, Decimal, LIMIT};
#[allow(unused_imports)]
use crate::decimal::{decimal_value, is_not_a_number, reading};
use crate::text::{same_text, trim};
#[allow(unused_imports)]
use crate::text::{is_blank, opt_text, trimmed};

verus! {

/// A price on the wire.
#[derive(Debug, Clone, Copy, PartialEq, Eq, Structural)]
pub enum Price {
    Amount(Decimal),
    /// No number, or one too large to count: there is nothing to add up.
    NoAmount,
}

/// A price on the wire, in units.
pub enum PriceView {
    Amount(int),
    NoAmount,
}

impl View for Price {
    type V = PriceView;

    open spec fn view(&self) -> PriceView {
        match self {
            Price::Amount(d) => PriceView::Amount(d@),
            Price::NoAmount => PriceView::NoAmount,
        }
    }
}

/// The price inside an option, in units.
pub open spec fn opt_price(price: Option<Price>) -> Option<PriceView> {
    match price {
        Some(price) => Some(price@),
        None => None,
    }
}

/// Best bid and ask of one token; nothing where unknown.
#[derive(Debug, Clone, Copy)]
pub struct BestPrices {
    pub bid: Option<Price>,
    pub ask: Option<Price>,
}

impl Default for BestPrices {
    fn default() -> (p: Self)
        ensures
            p.bid is None,
            p.ask is None,
    {
        BestPrices { bid: None, ask: None }
    }
}

/// Best bid and ask, in units.
pub struct Quote {
    pub bid: Option<PriceView>,
    pub ask: Option<PriceView>,
}

impl View for BestPrices {
    type V = Quote;

    open spec fn view(&self) -> Quote {
        Quote { bid: opt_price(self.bid), ask: opt_price(self.ask) }
    }
}

/// Best prices by token.
pub struct PriceTable {
    prices: StringHashMap<BestPrices>,
}

impl View for PriceTable {
    type V = Map<Seq<char>, Quote>;

    closed spec fn view(&self) -> Map<Seq<char>, Quote> {
        self.prices@.map_values(|p: BestPrices| p@)
    }
}

impl PriceTable {
    /// A table that knows no prices.
    pub fn new() -> (table: Self)
        ensures
            table@ == Map::<Seq<char>, Quote>::empty(),
    {
        let table = PriceTable { prices: StringHashMap::new() };
        assert(table@ =~= Map::<Seq<char>, Quote>::empty());
        table
    }

    /// The prices of a token, if any of them is known.
    pub fn get(&self, asset_id: &str) -> (prices: Option<BestPrices>)
        ensures
            match prices {
                Some(p) => self@.contains_key(asset_id@) && p@ == self@[asset_id@],
                None => !self@.contains_key(asset_id@),
            },
    {
        match self.prices.get(asset_id) {
            Some(prices) => Some(*prices),
            None => None,
        }
    }

    fn put(&mut self, asset_id: &str, prices: BestPrices)
        ensures
            final(self)@ == old(self)@.insert(asset_id@, prices@),
    {
        let ghost after = self@.insert(asset_id@, prices@);
        self.prices.insert(asset_id.to_owned(), prices);
        assert(self@ =~= after);
    }
}

/// What a price on the wire stands for, white space around it aside: an amount, where need
/// be rounded up, or what is no amount. At either end of what can be counted stands all
/// that lies beyond, so that is no amount.
pub open spec fn wire_price(text: Seq<char>, up: bool) -> Option<PriceView> {
    let t = trimmed(text);
    if is_not_a_number(t) {
        Some(PriceView::NoAmount)
    } else {
        match reading(t, up) {
            Some(v) => if -LIMIT < v < LIMIT {
                Some(PriceView::Amount(v))
            } else {
                Some(PriceView::NoAmount)
            },
            None => None,
        }
    }
}

/// What a bid on the wire stands for.
pub open spec fn bid_value(text: Seq<char>) -> Option<PriceView> {
    wire_price(text, false)
}

/// What an ask on the wire stands for. Where it has more digits than can be counted it is
/// rounded up, so that no sum looks lower than it is.
pub open spec fn ask_value(text: Seq<char>) -> Option<PriceView> {
    wire_price(text, true)
}

fn parse_price(text: &str, up: bool) -> (price: Option<Price>)
    ensures
        opt_price(price) == wire_price(text@, up),
{
    let chars = trim(text);
    if spells_no_number(&chars) {
        return Some(Price::NoAmount);
    }
    match parse_rounded(&chars, up) {
        Some(d) => if -LIMIT < d.units() && d.units() < LIMIT {
            Some(Price::Amount(d))
        } else {
            Some(Price::NoAmount)
        },
        None => None,
    }
}

/// Reads a bid on the wire.
pub fn parse_bid(text: &str) -> (price: Option<Price>)
    ensures
        opt_price(price) == bid_value(text@),
{
    parse_price(text, false)
}

/// Reads an ask on the wire.
pub fn parse_ask(text: &str) -> (price: Option<Price>)
    ensures
        opt_price(price) == ask_value(text@),
{
    parse_price(text, true)
}

/// What a quote becomes when some of its sides are told anew.
pub open spec fn merged(
    old_quote: Quote,
    bid: Option<PriceView>,
    ask: Option<PriceView>,
) -> Quote {
    Quote {
        bid: if bid is Some {
            bid
        } else {
            old_quote.bid
        },
        ask: if ask is Some {
            ask
        } else {
            old_quote.ask
        },
    }
}

/// What a table becomes when `id` is quoted: a side that is not told is kept, and
/// nothing changes when neither side is told.
pub open spec fn quoted(
    table: Map<Seq<char>, Quote>,
    id: Seq<char>,
    bid: Option<PriceView>,
    ask: Option<PriceView>,
) -> Map<Seq<char>, Quote> {
    if bid is None && ask is None {
        table
    } else if table.contains_key(id) {
        table.insert(id, merged(table[id], bid, ask))
    } else {
        table.insert(id, Quote { bid, ask })
    }
}

impl PriceTable {
    fn quote(&mut self, asset_id: &str, bid: Option<Price>, ask: Option<Price>)
        ensures
            final(self)@ == quoted(old(self)@, asset_id@, opt_price(bid), opt_price(ask)),
    {
        if bid.is_none() && ask.is_none() {
            return ;
        }
        let mut prices = match self.get(asset_id) {
            Some(prices) => prices,
            None => BestPrices::default(),
        };
        if bid.is_some() {
            prices.bid = bid;
        }
        if ask.is_some() {
            prices.ask = ask;
        }
        self.put(asset_id, prices);
    }
}

/// One level of an order book.
#[derive(Debug)]
pub struct BookLevel {
    pub price: String,
    pub size: String,
}

/// The order book of a token: the levels on each side, in any order.
#[derive(Debug)]
pub struct BookMessage {
    pub asset_id: String,
    pub buys: Vec<BookLevel>,
    pub sells: Vec<BookLevel>,
}

/// New best prices of one token.
#[derive(Debug)]
pub struct PriceChange {
    pub asset_id: String,
    pub best_bid: Option<String>,
    pub best_ask: Option<String>,
}

/// A message of the market channel.
#[derive(Debug)]
pub enum MarketMessage {
    Book(BookMessage),
    PriceChanges(Vec<PriceChange>),
    Other,
}

/// The higher of two prices, where either is known. An amount goes before what is none.
pub open spec fn higher(a: Option<PriceView>, b: Option<PriceView>) -> Option<PriceView> {
    match (a, b) {
        (Some(PriceView::Amount(x)), Some(PriceView::Amount(y))) => if y > x {
            b
        } else {
            a
        },
        (Some(PriceView::Amount(_)), _) => a,
        (_, Some(_)) => b,
        _ => a,
    }
}

/// The lower of two prices, where either is known. An amount goes before what is none.
pub open spec fn lower(a: Option<PriceView>, b: Option<PriceView>) -> Option<PriceView> {
    match (a, b) {
        (Some(PriceView::Amount(x)), Some(PriceView::Amount(y))) => if y < x {
            b
        } else {
            a
        },
        (Some(PriceView::Amount(_)), _) => a,
        (_, Some(_)) => b,
        _ => a,
    }
}

/// The highest price among levels that can be read.
pub open spec fn best_bid(levels: Seq<BookLevel>) -> Option<PriceView>
    decreases levels.len(),
{
    if levels.len() == 0 {
        None
    } else {
        higher(best_bid(levels.drop_last()), bid_value(levels.last().price@))
    }
}

/// The lowest price among levels that can be read.
pub open spec fn best_ask(levels: Seq<BookLevel>) -> Option<PriceView>
    decreases levels.len(),
{
    if levels.len() == 0 {
        None
    } else {
        lower(best_ask(levels.drop_last()), ask_value(levels.last().price@))
    }
}

/// A bid on the wire, where there is one.
pub open spec fn told_bid(text: Option<String>) -> Option<PriceView> {
    match text {
        Some(text) => bid_value(text@),
        None => None,
    }
}

/// An ask on the wire, where there is one.
pub open spec fn told_ask(text: Option<String>) -> Option<PriceView> {
    match text {
        Some(text) => ask_value(text@),
        None => None,
    }
}

/// The table after a number of changes, applied in order.
pub open spec fn changed(table: Map<Seq<char>, Quote>, changes: Seq<PriceChange>) -> Map<
    Seq<char>,
    Quote,
>
    decreases changes.len(),
{
    if changes.len() == 0 {
        table
    } else {
        let change = changes.last();
        quoted(
            changed(table, changes.drop_last()),
            change.asset_id@,
            told_bid(change.best_bid),
            told_ask(change.best_ask),
        )
    }
}

/// The table after a message.
pub open spec fn told(table: Map<Seq<char>, Quote>, message: MarketMessage) -> Map<
    Seq<char>,
    Quote,
> {
    match message {
        MarketMessage::Book(book) => quoted(
            table,
            book.asset_id@,
            best_bid(book.buys@),
            best_ask(book.sells@),
        ),
        MarketMessage::PriceChanges(changes) => changed(table, changes@),
        MarketMessage::Other => table,
    }
}

fn highest_bid(levels: &Vec<BookLevel>) -> (best: Option<Price>)
    ensures
        opt_price(best) == best_bid(levels@),
{
    let mut best: Option<Price> = None;
    let mut i: usize = 0;
    assert(levels@.take(0) =~= Seq::<BookLevel>::empty());
    while i < levels.len()
        invariant
            i <= levels.len(),
            opt_price(best) == best_bid(levels@.take(i as int)),
        decreases levels.len() - i,
    {
        let ghost seen = levels@.take(i + 1);
        assert(seen.drop_last() =~= levels@.take(i as int));
        assert(seen.last() == levels@[i as int]);
        if let Some(price) = parse_bid(levels[i].price.as_str()) {
            best = match best {
                Some(Price::Amount(known)) => match price {
                    Price::Amount(new) if new.units() > known.units() => Some(price),
                    _ => Some(Price::Amount(known)),
                },
                _ => Some(price),
            };
        }
        i += 1;
    }
    assert(levels@.take(i as int) =~= levels@);
    best
}

fn lowest_ask(levels: &Vec<BookLevel>) -> (best: Option<Price>)
    ensures
        opt_price(best) == best_ask(levels@),
{
    let mut best: Option<Price> = None;
    let mut i: usize = 0;
    assert(levels@.take(0) =~= Seq::<BookLevel>::empty());
    while i < levels.len()
        invariant
            i <= levels.len(),
            opt_price(best) == best_ask(levels@.take(i as int)),
        decreases levels.len() - i,
    {
        let ghost seen = levels@.take(i + 1);
        assert(seen.drop_last() =~= levels@.take(i as int));
        assert(seen.last() == levels@[i as int]);
        if let Some(price) = parse_ask(levels[i].price.as_str()) {
            best = match best {
                Some(Price::Amount(known)) => match price {
                    Price::Amount(new) if new.units() < known.units() => Some(price),
                    _ => Some(Price::Amount(known)),
                },
                _ => Some(price),
            };
        }
        i += 1;
    }
    assert(levels@.take(i as int) =~= levels@);
    best
}

fn read_bid(text: &Option<String>) -> (price: Option<Price>)
    ensures
        opt_price(price) == told_bid(*text),
{
    match text {
        Some(text) => parse_bid(text.as_str()),
        None => None,
    }
}

fn read_ask(text: &Option<String>) -> (price: Option<Price>)
    ensures
        opt_price(price) == told_ask(*text),
{
    match text {
        Some(text) => parse_ask(text.as_str()),
        None => None,
    }
}

/// Brings the table up to date with a message.
pub fn process_message(prices: &mut PriceTable, message: &MarketMessage)
    ensures
        final(prices)@ == told(old(prices)@, *message),
{
    match message {
        MarketMessage::Book(book) => {
            let bid = highest_bid(&book.buys);
            let ask = lowest_ask(&book.sells);
            prices.quote(book.asset_id.as_str(), bid, ask);
        },
        MarketMessage::PriceChanges(changes) => {
            let ghost before = prices@;
            let mut i: usize = 0;
            assert(changes@.take(0) =~= Seq::<PriceChange>::empty());
            while i < changes.len()
                invariant
                    i <= changes.len(),
                    prices@ == changed(before, changes@.take(i as int)),
                decreases changes.len() - i,
            {
                let change = &changes[i];
                let ghost seen = changes@.take(i + 1);
                assert(seen.drop_last() =~= changes@.take(i as int));
                assert(seen.last() == change);
                let bid = read_bid(&change.best_bid);
                let ask = read_ask(&change.best_ask);
                prices.quote(change.asset_id.as_str(), bid, ask);
                i += 1;
            }
            assert(changes@.take(i as int) =~= changes@);
        },
        MarketMessage::Other => {},
    }
}

/// What kind of message an event type announces.
#[derive(Debug, Clone, Copy, PartialEq, Eq, Structural)]
pub enum EventKind {
    Book,
    PriceChange,
    Other,
}

pub open spec fn kind_of(event_type: Option<Seq<char>>) -> EventKind {
    if event_type == Some("book"@) {
        EventKind::Book
    } else if event_type == Some("price_change"@) {
        EventKind::PriceChange
    } else {
        EventKind::Other
    }
}

/// The kind of message that an event type announces.
pub fn event_kind(event_type: &Option<String>) -> (kind: EventKind)
    ensures
        kind == kind_of(opt_text(*event_type)),
{
    match event_type {
        Some(t) => if same_text(t.as_str(), "book") {
            EventKind::Book
        } else if same_text(t.as_str(), "price_change") {
            EventKind::PriceChange
        } else {
            EventKind::Other
        },
        None => EventKind::Other,
    }
}

#[verifier::external_type_specification]
#[verifier::external_body]
pub struct ExJsonError(serde_json::Error);

/// What `serde_json::from_str` and `serde_json::Value::get` make of a text and a key:
/// nothing for a text that is no JSON; else the string that the key has in the object
/// that the text spells, or nothing inside where it spells no object or the key has no
/// string there.
pub uninterp spec fn json_string_at(text: Seq<char>, key: Seq<char>) -> Option<Option<Seq<char>>>;

/// Looks a string up in a JSON text: `serde_json::from_str` into a
/// `serde_json::Value`, then `Value::get` with the key. The result is a function of the
/// text and the key; which texts are JSON and what they spell is not stated here.
#[verifier::external_body]
fn string_at(text: &str, key: &str) -> (r: Result<Option<String>, serde_json::Error>)
    ensures
        match r {
            Ok(s) => json_string_at(text@, key@) == Some(opt_text(s)),
            Err(_) => json_string_at(text@, key@) is None,
        },
{
    let value: serde_json::Value = serde_json::from_str(text)?;
    match value.get(key) {
        Some(serde_json::Value::String(s)) => Ok(Some(s.clone())),
        _ => Ok(None),
    }
}

/// A text on the market channel is no JSON.
#[derive(Debug, Clone, Copy, PartialEq, Eq, Structural)]
pub struct NotJson;

/// The kind of message that a text on the market channel is.
pub fn classify_message(text: &str) -> (kind: Result<EventKind, NotJson>)
    ensures
        match kind {
            Ok(kind) => json_string_at(text@, "event_type"@) is Some && kind == kind_of(
                json_string_at(text@, "event_type"@)->0,
            ),
            Err(_) => json_string_at(text@, "event_type"@) is None,
        },
{
    match string_at(text, "event_type") {
        Ok(event_type) => Ok(event_kind(&event_type)),
        Err(_) => Err(NotJson),
    }
}

/// What comes in on the connection.
#[derive(Debug)]
pub enum Inbound {
    Text(String),
    Ping(Vec<u8>),
    Close,
    Failed,
    Ended,
    Other,
}

/// What to do about it.
#[derive(Debug)]
pub enum WsStep {
    /// Read the text as a message.
    Process(String),
    /// Answer with these bytes.
    Pong(Vec<u8>),
    /// Go on listening.
    Ignore,
    /// Leave.
    Stop,
}

/// The text that an item brings, where it is one to read as a message.
pub open spec fn text_of(inbound: Inbound) -> Option<Seq<char>> {
    match inbound {
        Inbound::Text(text) => if text@ == "PONG"@ || text@ == "pong"@ {
            None
        } else {
            Some(text@)
        },
        _ => None,
    }
}

/// Whether the connection is left on an item.
pub open spec fn stops(inbound: Inbound) -> bool {
    inbound is Close || inbound is Failed || inbound is Ended
}

/// Decides on what came in: answers to our own pings are ignored, pings are answered,
/// and the connection is left when it is closed, has failed or has ended.
pub fn ws_step(inbound: Inbound) -> (step: WsStep)
    ensures
        match inbound {
            Inbound::Text(text) => if text@ == "PONG"@ || text@ == "pong"@ {
                step is Ignore
            } else {
                step == WsStep::Process(text)
            },
            Inbound::Ping(data) => step == WsStep::Pong(data),
            Inbound::Close => step is Stop,
            Inbound::Failed => step is Stop,
            Inbound::Ended => step is Stop,
            Inbound::Other => step is Ignore,
        },
        step is Stop <==> stops(inbound),
        step is Process <==> text_of(inbound) is Some,
        step matches WsStep::Process(text) ==> text_of(inbound) == Some(text@),
{
    match inbound {
        Inbound::Text(text) => if same_text(text.as_str(), "PONG") || same_text(
            text.as_str(),
            "pong",
        ) {
            WsStep::Ignore
        } else {
            WsStep::Process(text)
        },
        Inbound::Ping(data) => WsStep::Pong(data),
        Inbound::Close => WsStep::Stop,
        Inbound::Failed => WsStep::Stop,
        Inbound::Ended => WsStep::Stop,
        Inbound::Other => WsStep::Ignore,
    }
}

/// `s` without the slashes at its back.
pub open spec fn without_slashes(s: Seq<char>) -> Seq<char>
    decreases s.len(),
{
    if s.len() > 0 && s.last() == '/' {
        without_slashes(s.drop_last())
    } else {
        s
    }
}

/// The address of the market channel under a base address.
pub fn market_ws_url(ws_base_url: &str) -> (url: String)
    ensures
        url@ == without_slashes(ws_base_url@) + "/ws/market"@,
{
    let chars = crate::text::to_chars(ws_base_url);
    let mut end: usize = chars.len();
    assert(chars@.take(end as int) =~= ws_base_url@);
    while end > 0 && chars[end - 1] == '/'
        invariant
            end <= chars.len(),
            without_slashes(chars@.take(end as int)) == without_slashes(ws_base_url@),
        decreases end,
    {
        assert(chars@.take(end as int).drop_last() =~= chars@.take(end - 1));
        end -= 1;
    }
    assert(chars@.take(end as int) =~= ws_base_url@.subrange(0, end as int));
    let base = ws_base_url.substring_char(0, end);
    let mut url = base.to_owned();
    url.append("/ws/market");
    url
}

/// A hexadecimal digit, in lower case.
pub open spec fn hex_digit(d: int) -> char {
    if d < 10 {
        ('0' as int + d) as char
    } else {
        ('a' as int + d - 10) as char
    }
}

/// How JSON writes a character of a string.
pub open spec fn escaped(c: char) -> Seq<char> {
    let code = c as int;
    if c == '"' || c == '\\' {
        seq!['\\', c]
    } else if code == 0x08 {
        seq!['\\', 'b']
    } else if code == 0x09 {
        seq!['\\', 't']
    } else if code == 0x0a {
        seq!['\\', 'n']
    } else if code == 0x0c {
        seq!['\\', 'f']
    } else if code == 0x0d {
        seq!['\\', 'r']
    } else if code < 0x20 {
        seq!['\\', 'u', '0', '0', hex_digit(code / 16), hex_digit(code % 16)]
    } else {
        seq![c]
    }
}

/// The characters of a text as JSON writes them.
pub open spec fn escaped_text(s: Seq<char>) -> Seq<char>
    decreases s.len(),
{
    if s.len() == 0 {
        seq![]
    } else {
        escaped_text(s.drop_last()) + escaped(s.last())
    }
}

/// Texts as JSON strings, separated by commas.
pub open spec fn json_strings(items: Seq<Seq<char>>) -> Seq<char>
    decreases items.len(),
{
    if items.len() == 0 {
        seq![]
    } else {
        let front = json_strings(items.drop_last());
        let comma = if items.len() == 1 {
            seq![]
        } else {
            seq![',']
        };
        front + comma + seq!['"'] + escaped_text(items.last()) + seq!['"']
    }
}

/// Texts as a JSON array of strings.
pub open spec fn json_array(items: Seq<Seq<char>>) -> Seq<char> {
    seq!['['] + json_strings(items) + seq![']']
}

/// Writes a list of strings as a JSON array: `serde_json::to_string`. It does not fail on
/// strings, and writes them between quotes, separated by commas, in brackets; quotes,
/// backslashes and control characters are escaped, all else stands as it is.
#[verifier::external_body]
fn to_json_array(items: &Vec<String>) -> (r: Result<String, serde_json::Error>)
    ensures
        r is Ok,
        r->Ok_0@ == json_array(items@.map_values(|s: String| s@)),
{
    serde_json::to_string(items)
}

/// The request for a subscription, around the list of tokens.
pub open spec fn subscription_around(list: Seq<char>) -> Seq<char> {
    "{\"assets_ids\":"@ + list + ",\"type\":\"market\"}"@
}

/// The request for a subscription to the tokens of a list that is already written as a
/// JSON array.
pub fn subscription_to(list: &str) -> (request: String)
    ensures
        request@ == subscription_around(list@),
{
    let mut request = String::new();
    request.append("{\"assets_ids\":");
    request.append(list);
    request.append(",\"type\":\"market\"}");
    assert(request@ =~= subscription_around(list@));
    request
}

/// The request for a subscription to the order books of tokens.
pub fn subscription(asset_ids: &Vec<String>) -> (request: String)
    ensures
        request@ == subscription_around(json_array(asset_ids@.map_values(|s: String| s@))),
{
    let list = to_json_array(asset_ids).unwrap();
    subscription_to(list.as_str())
}

/// The best bid of a book is the amount of a level that no other level exceeds; there is
/// none exactly where no level can be read.
pub proof fn law_best_bid_is_the_highest(levels: Seq<BookLevel>, m: int)
    ensures
        best_bid(levels) == Some(PriceView::Amount(m)) <==> {
            &&& exists|i: int|
                0 <= i < levels.len() && #[trigger] bid_value(levels[i].price@) == Some(
                    PriceView::Amount(m),
                )
            &&& forall|i: int|
                0 <= i < levels.len() ==> (#[trigger] bid_value(levels[i].price@) matches Some(
                    PriceView::Amount(v),
                ) ==> v <= m)
        },
        best_bid(levels) is None <==> forall|i: int|
            0 <= i < levels.len() ==> #[trigger] bid_value(levels[i].price@) is None,
{
    lemma_best_bid(levels);
}

/// The best ask of a book is the amount of a level that no other level is below; there is
/// none exactly where no level can be read.
pub proof fn law_best_ask_is_the_lowest(levels: Seq<BookLevel>, m: int)
    ensures
        best_ask(levels) == Some(PriceView::Amount(m)) <==> {
            &&& exists|i: int|
                0 <= i < levels.len() && #[trigger] ask_value(levels[i].price@) == Some(
                    PriceView::Amount(m),
                )
            &&& forall|i: int|
                0 <= i < levels.len() ==> (#[trigger] ask_value(levels[i].price@) matches Some(
                    PriceView::Amount(v),
                ) ==> v >= m)
        },
        best_ask(levels) is None <==> forall|i: int|
            0 <= i < levels.len() ==> #[trigger] ask_value(levels[i].price@) is None,
{
    lemma_best_ask(levels);
}

proof fn lemma_best_bid(levels: Seq<BookLevel>)
    ensures
        best_bid(levels) is Some ==> exists|i: int|
            0 <= i < levels.len() && #[trigger] bid_value(levels[i].price@) == best_bid(levels),
        forall|i: int|
            0 <= i < levels.len() ==> (#[trigger] bid_value(levels[i].price@) matches Some(p) ==> {
                &&& best_bid(levels) is Some
                &&& p matches PriceView::Amount(v) ==> (best_bid(levels)->0 matches PriceView::Amount(
                    m,
                ) && v <= m)
            }),
    decreases levels.len(),
{
    if levels.len() > 0 {
        let front = levels.drop_last();
        lemma_best_bid(front);
        assert forall|i: int| 0 <= i < front.len() implies #[trigger] bid_value(levels[i].price@)
            == bid_value(front[i].price@) by {}
        if best_bid(front) is Some {
            let i = choose|i: int|
                0 <= i < front.len() && #[trigger] bid_value(front[i].price@) == best_bid(front);
            assert(bid_value(levels[i].price@) == best_bid(front));
        }
        assert(bid_value(levels[levels.len() - 1].price@) == bid_value(levels.last().price@));
    }
}

proof fn lemma_best_ask(levels: Seq<BookLevel>)
    ensures
        best_ask(levels) is Some ==> exists|i: int|
            0 <= i < levels.len() && #[trigger] ask_value(levels[i].price@) == best_ask(levels),
        forall|i: int|
            0 <= i < levels.len() ==> (#[trigger] ask_value(levels[i].price@) matches Some(p) ==> {
                &&& best_ask(levels) is Some
                &&& p matches PriceView::Amount(v) ==> (best_ask(levels)->0 matches PriceView::Amount(
                    m,
                ) && v >= m)
            }),
    decreases levels.len(),
{
    if levels.len() > 0 {
        let front = levels.drop_last();
        lemma_best_ask(front);
        assert forall|i: int| 0 <= i < front.len() implies #[trigger] ask_value(levels[i].price@)
            == ask_value(front[i].price@) by {}
        if best_ask(front) is Some {
            let i = choose|i: int|
                0 <= i < front.len() && #[trigger] ask_value(front[i].price@) == best_ask(front);
            assert(ask_value(levels[i].price@) == best_ask(front));
        }
        assert(ask_value(levels[levels.len() - 1].price@) == ask_value(levels.last().price@));
    }
}

/// A quote of one token leaves every other token alone, and what it does not tell of its
/// own token stays known.
pub proof fn law_quote_is_local(
    table: Map<Seq<char>, Quote>,
    id: Seq<char>,
    bid: Option<PriceView>,
    ask: Option<PriceView>,
    other: Seq<char>,
)
    ensures
        other != id ==> quoted(table, id, bid, ask).contains_key(other) == table.contains_key(
            other,
        ),
        other != id && table.contains_key(other) ==> quoted(table, id, bid, ask)[other]
            == table[other],
        bid is Some || ask is Some ==> quoted(table, id, bid, ask).contains_key(id),
        bid is Some ==> quoted(table, id, bid, ask)[id].bid == bid,
        ask is Some ==> quoted(table, id, bid, ask)[id].ask == ask,
        table.contains_key(id) && bid is None ==> quoted(table, id, bid, ask)[id].bid
            == table[id].bid,
        table.contains_key(id) && ask is None ==> quoted(table, id, bid, ask)[id].ask
            == table[id].ask,
{
}

/// What is known of a token is never forgotten.
pub proof fn law_known_prices_stay_known(
    table: Map<Seq<char>, Quote>,
    message: MarketMessage,
    id: Seq<char>,
)
    requires
        table.contains_key(id),
    ensures
        told(table, message).contains_key(id),
        table[id].bid is Some ==> told(table, message)[id].bid is Some,
        table[id].ask is Some ==> told(table, message)[id].ask is Some,
{
    if let MarketMessage::PriceChanges(changes) = message {
        lemma_changes_keep(table, changes@, id);
    }
}

proof fn lemma_changes_keep(
    table: Map<Seq<char>, Quote>,
    changes: Seq<PriceChange>,
    id: Seq<char>,
)
    requires
        table.contains_key(id),
    ensures
        changed(table, changes).contains_key(id),
        table[id].bid is Some ==> changed(table, changes)[id].bid is Some,
        table[id].ask is Some ==> changed(table, changes)[id].ask is Some,
    decreases changes.len(),
{
    if changes.len() > 0 {
        lemma_changes_keep(table, changes.drop_last(), id);
    }
}

/// Whether a message speaks of a token.
pub open spec fn names(message: MarketMessage, id: Seq<char>) -> bool {
    match message {
        MarketMessage::Book(book) => book.asset_id@ == id,
        MarketMessage::PriceChanges(changes) => exists|i: int|
            0 <= i < changes.len() && #[trigger] changes@[i].asset_id@ == id,
        MarketMessage::Other => false,
    }
}

/// A message leaves the tokens alone that it does not speak of.
pub proof fn law_message_is_local(
    table: Map<Seq<char>, Quote>,
    message: MarketMessage,
    other: Seq<char>,
)
    requires
        !names(message, other),
    ensures
        told(table, message).contains_key(other) == table.contains_key(other),
        table.contains_key(other) ==> told(table, message)[other] == table[other],
{
    if let MarketMessage::PriceChanges(changes) = message {
        lemma_changes_are_local(table, changes@, other);
    }
}

proof fn lemma_changes_are_local(
    table: Map<Seq<char>, Quote>,
    changes: Seq<PriceChange>,
    other: Seq<char>,
)
    requires
        forall|i: int| 0 <= i < changes.len() ==> #[trigger] changes[i].asset_id@ != other,
    ensures
        changed(table, changes).contains_key(other) == table.contains_key(other),
        table.contains_key(other) ==> changed(table, changes)[other] == table[other],
    decreases changes.len(),
{
    if changes.len() > 0 {
        let front = changes.drop_last();
        assert forall|i: int| 0 <= i < front.len() implies #[trigger] front[i].asset_id@
            != other by {
            assert(front[i] == changes[i]);
        }
        lemma_changes_are_local(table, front, other);
        assert(changes[changes.len() - 1].asset_id@ != other);
    }
}

/// The bid that changes tell last of a token.
spec fn last_bid(changes: Seq<PriceChange>, id: Seq<char>) -> Option<PriceView>
    decreases changes.len(),
{
    if changes.len() == 0 {
        None
    } else if changes.last().asset_id@ == id && told_bid(changes.last().best_bid) is Some {
        told_bid(changes.last().best_bid)
    } else {
        last_bid(changes.drop_last(), id)
    }
}

/// The ask that changes tell last of a token.
spec fn last_ask(changes: Seq<PriceChange>, id: Seq<char>) -> Option<PriceView>
    decreases changes.len(),
{
    if changes.len() == 0 {
        None
    } else if changes.last().asset_id@ == id && told_ask(changes.last().best_ask) is Some {
        told_ask(changes.last().best_ask)
    } else {
        last_ask(changes.drop_last(), id)
    }
}

/// Of several changes the last ones count.
proof fn lemma_last_changes_count(
    table: Map<Seq<char>, Quote>,
    changes: Seq<PriceChange>,
    id: Seq<char>,
)
    ensures
        ({
            let bid = last_bid(changes, id);
            let ask = last_ask(changes, id);
            let after = changed(table, changes);
            let before = if table.contains_key(id) {
                table[id]
            } else {
                Quote { bid: None, ask: None }
            };
            &&& after.contains_key(id) <==> table.contains_key(id) || bid is Some || ask is Some
            &&& after.contains_key(id) ==> after[id] == merged(before, bid, ask)
        }),
    decreases changes.len(),
{
    if changes.len() > 0 {
        lemma_last_changes_count(table, changes.drop_last(), id);
    }
}

/// Reading a message a second time changes nothing.
pub proof fn law_second_reading_changes_nothing(
    table: Map<Seq<char>, Quote>,
    message: MarketMessage,
)
    ensures
        told(told(table, message), message) == told(table, message),
{
    let once = told(table, message);
    if let MarketMessage::PriceChanges(changes) = message {
        assert forall|id: Seq<char>| #[trigger]
            once.contains_key(id) == changed(once, changes@).contains_key(id) && (
            once.contains_key(id) ==> once[id] == changed(once, changes@)[id]) by {
            lemma_last_changes_count(table, changes@, id);
            lemma_last_changes_count(once, changes@, id);
        }
    }
    assert(told(once, message) =~= once);
}

/// Whether every token of a table has a price on one side at least.
pub open spec fn all_priced(table: Map<Seq<char>, Quote>) -> bool {
    forall|id: Seq<char>| #[trigger]
        table.contains_key(id) ==> table[id].bid is Some || table[id].ask is Some
}

/// No token is listed without a price: an empty table lists none, and no message changes
/// that.
pub proof fn law_every_entry_has_a_price(
    table: Map<Seq<char>, Quote>,
    message: MarketMessage,
)
    ensures
        all_priced(Map::<Seq<char>, Quote>::empty()),
        all_priced(table) ==> all_priced(told(table, message)),
{
    if all_priced(table) {
        if let MarketMessage::PriceChanges(changes) = message {
            assert forall|id: Seq<char>| #[trigger]
                changed(table, changes@).contains_key(id) implies changed(table, changes@)[id].bid
                is Some || changed(table, changes@)[id].ask is Some by {
                lemma_last_changes_count(table, changes@, id);
            }
        }
    }
}

/// The table after a stream of items, taken one by one until the connection is left.
/// `read` says which message a text is.
pub open spec fn streamed(
    table: Map<Seq<char>, Quote>,
    stream: Seq<Inbound>,
    read: spec_fn(Seq<char>) -> MarketMessage,
) -> Map<Seq<char>, Quote>
    decreases stream.len(),
{
    if stream.len() == 0 || stops(stream[0]) {
        table
    } else {
        match text_of(stream[0]) {
            Some(text) => streamed(told(table, read(text)), stream.drop_first(), read),
            None => streamed(table, stream.drop_first(), read),
        }
    }
}

/// The texts of a stream that are read, in order, up to where the connection is left.
pub open spec fn texts(stream: Seq<Inbound>) -> Seq<Seq<char>>
    decreases stream.len(),
{
    if stream.len() == 0 || stops(stream[0]) {
        seq![]
    } else {
        match text_of(stream[0]) {
            Some(text) => seq![text] + texts(stream.drop_first()),
            None => texts(stream.drop_first()),
        }
    }
}

/// The table after messages, in order.
pub open spec fn told_all(
    table: Map<Seq<char>, Quote>,
    messages: Seq<MarketMessage>,
) -> Map<Seq<char>, Quote>
    decreases messages.len(),
{
    if messages.len() == 0 {
        table
    } else {
        told_all(told(table, messages[0]), messages.drop_first())
    }
}

/// A stream leaves the table that its texts tell, in order, up to the first item on which
/// the connection is left.
pub proof fn law_stream_is_told_in_order(
    table: Map<Seq<char>, Quote>,
    stream: Seq<Inbound>,
    read: spec_fn(Seq<char>) -> MarketMessage,
)
    ensures
        streamed(table, stream, read) == told_all(table, texts(stream).map_values(read)),
    decreases stream.len(),
{
    if stream.len() > 0 && !stops(stream[0]) {
        let rest = stream.drop_first();
        match text_of(stream[0]) {
            Some(text) => {
                law_stream_is_told_in_order(told(table, read(text)), rest, read);
                let all = texts(stream).map_values(read);
                assert(all.drop_first() =~= texts(rest).map_values(read));
                assert(all[0] == read(text));
            },
            None => law_stream_is_told_in_order(table, rest, read),
        }
    }
}

/// What comes behind an item on which the connection is left makes no difference.
pub proof fn law_nothing_is_read_after_the_end(
    table: Map<Seq<char>, Quote>,
    stream: Seq<Inbound>,
    read: spec_fn(Seq<char>) -> MarketMessage,
    end: int,
)
    requires
        0 <= end < stream.len(),
        stops(stream[end]),
    ensures
        streamed(table, stream, read) == streamed(table, stream.take(end), read),
    decreases stream.len(),
{
    let front = stream.take(end);
    if end > 0 && !stops(stream[0]) {
        let rest = stream.drop_first();
        assert(front[0] == stream[0]);
        assert(front.drop_first() =~= rest.take(end - 1));
        match text_of(stream[0]) {
            Some(text) => law_nothing_is_read_after_the_end(told(table, read(text)), rest, read, end - 1),
            None => law_nothing_is_read_after_the_end(table, rest, read, end - 1),
        }
    } else if end > 0 {
        assert(front[0] == stream[0]);
    }
}

/// After a message of price changes, a side of a token is what the last change that tells
/// it says, whatever was known before: it goes up as well as down.
pub proof fn law_price_told_last_counts(
    table: Map<Seq<char>, Quote>,
    message: MarketMessage,
    i: int,
)
    requires
        message is PriceChanges,
        0 <= i < message->PriceChanges_0.len(),
    ensures
        ({
            let changes = message->PriceChanges_0@;
            let id = changes[i].asset_id@;
            let after = told(table, message);
            &&& changes[i].best_bid matches Some(text) ==> bid_value(text@) is Some ==> (forall|
                j: int,
            |
                i < j < changes.len() && (#[trigger] changes[j]).asset_id@ == id ==> !(
                changes[j].best_bid matches Some(later) && bid_value(later@) is Some))
                ==> after.contains_key(id) && after[id].bid == bid_value(text@)
            &&& changes[i].best_ask matches Some(text) ==> ask_value(text@) is Some ==> (forall|
                j: int,
            |
                i < j < changes.len() && (#[trigger] changes[j]).asset_id@ == id ==> !(
                changes[j].best_ask matches Some(later) && ask_value(later@) is Some))
                ==> after.contains_key(id) && after[id].ask == ask_value(text@)
        }),
{
    let changes = message->PriceChanges_0@;
    let id = changes[i].asset_id@;
    lemma_told_last(table, changes, i);
}

proof fn lemma_told_last(table: Map<Seq<char>, Quote>, changes: Seq<PriceChange>, i: int)
    requires
        0 <= i < changes.len(),
    ensures
        ({
            let id = changes[i].asset_id@;
            let after = changed(table, changes);
            &&& told_bid(changes[i].best_bid) is Some && (forall|j: int|
                i < j < changes.len() && (#[trigger] changes[j]).asset_id@ == id ==> told_bid(
                    changes[j].best_bid,
                ) is None) ==> after.contains_key(id) && after[id].bid == told_bid(
                changes[i].best_bid,
            )
            &&& told_ask(changes[i].best_ask) is Some && (forall|j: int|
                i < j < changes.len() && (#[trigger] changes[j]).asset_id@ == id ==> told_ask(
                    changes[j].best_ask,
                ) is None) ==> after.contains_key(id) && after[id].ask == told_ask(
                changes[i].best_ask,
            )
        }),
    decreases changes.len(),
{
    let front = changes.drop_last();
    let n = front.len() as int;
    if i < n {
        lemma_told_last(table, front, i);
        assert(front[i] == changes[i]);
        assert(changes[n] == changes.last());
        assert forall|j: int| i < j < n implies #[trigger] front[j] == changes[j] by {}
    }
}

/// A side that no change tells anew stays as it was known, and a token that is told
/// nothing is not listed for it.
pub proof fn law_untold_side_is_kept(
    table: Map<Seq<char>, Quote>,
    message: MarketMessage,
    id: Seq<char>,
)
    requires
        message is PriceChanges,
    ensures
        ({
            let changes = message->PriceChanges_0@;
            let after = told(table, message);
            let bid_is_told = exists|i: int|
                0 <= i < changes.len() && (#[trigger] changes[i]).asset_id@ == id && (
                changes[i].best_bid matches Some(text) && bid_value(text@) is Some);
            let ask_is_told = exists|i: int|
                0 <= i < changes.len() && (#[trigger] changes[i]).asset_id@ == id && (
                changes[i].best_ask matches Some(text) && ask_value(text@) is Some);
            &&& after.contains_key(id) <==> table.contains_key(id) || bid_is_told || ask_is_told
            &&& !bid_is_told && table.contains_key(id) ==> after[id].bid == table[id].bid
            &&& !ask_is_told && table.contains_key(id) ==> after[id].ask == table[id].ask
            &&& !bid_is_told && !table.contains_key(id) && after.contains_key(id)
                ==> after[id].bid is None
            &&& !ask_is_told && !table.contains_key(id) && after.contains_key(id)
                ==> after[id].ask is None
        }),
{
    lemma_untold(table, message->PriceChanges_0@, id);
}

/// Whether a change tells the bid of a token.
spec fn tells_bid(change: PriceChange, id: Seq<char>) -> bool {
    change.asset_id@ == id && told_bid(change.best_bid) is Some
}

/// Whether a change tells the ask of a token.
spec fn tells_ask(change: PriceChange, id: Seq<char>) -> bool {
    change.asset_id@ == id && told_ask(change.best_ask) is Some
}

proof fn lemma_untold(table: Map<Seq<char>, Quote>, changes: Seq<PriceChange>, id: Seq<char>)
    ensures
        ({
            let after = changed(table, changes);
            let bid_is_told = exists|i: int|
                0 <= i < changes.len() && tells_bid(#[trigger] changes[i], id);
            let ask_is_told = exists|i: int|
                0 <= i < changes.len() && tells_ask(#[trigger] changes[i], id);
            &&& after.contains_key(id) <==> table.contains_key(id) || bid_is_told || ask_is_told
            &&& !bid_is_told && table.contains_key(id) ==> after[id].bid == table[id].bid
            &&& !ask_is_told && table.contains_key(id) ==> after[id].ask == table[id].ask
            &&& !bid_is_told && !table.contains_key(id) && after.contains_key(id)
                ==> after[id].bid is None
            &&& !ask_is_told && !table.contains_key(id) && after.contains_key(id)
                ==> after[id].ask is None
        }),
    decreases changes.len(),
{
    if changes.len() > 0 {
        let front = changes.drop_last();
        let n = front.len() as int;
        lemma_untold(table, front, id);
        assert(changes[n] == changes.last());
        if exists|i: int| 0 <= i < n && tells_bid(#[trigger] front[i], id) {
            let i = choose|i: int| 0 <= i < n && tells_bid(#[trigger] front[i], id);
            assert(tells_bid(changes[i], id));
        }
        if exists|i: int| 0 <= i < n && tells_ask(#[trigger] front[i], id) {
            let i = choose|i: int| 0 <= i < n && tells_ask(#[trigger] front[i], id);
            assert(tells_ask(changes[i], id));
        }
        if exists|i: int| 0 <= i < changes.len() && tells_bid(#[trigger] changes[i], id) {
            let i = choose|i: int|
                0 <= i < changes.len() && tells_bid(#[trigger] changes[i], id);
            if i < n {
                assert(tells_bid(front[i], id));
            }
        }
        if exists|i: int| 0 <= i < changes.len() && tells_ask(#[trigger] changes[i], id) {
            let i = choose|i: int|
                0 <= i < changes.len() && tells_ask(#[trigger] changes[i], id);
            if i < n {
                assert(tells_ask(front[i], id));
            }
        }
    }
}

/// A book tells its token the highest bid and the lowest ask of its levels, whatever was
/// known before; a side without a level that can be read stays as it was.
pub proof fn law_book_replaces_what_was_known(
    table: Map<Seq<char>, Quote>,
    message: MarketMessage,
    i: int,
)
    requires
        message is Book,
    ensures
        ({
            let book = message->Book_0;
            let id = book.asset_id@;
            let after = told(table, message);
            let (buys, sells) = (book.buys@, book.sells@);
            &&& 0 <= i < buys.len() && (bid_value(buys[i].price@) matches Some(
                PriceView::Amount(v),
            )) ==> after.contains_key(id) && (after[id].bid matches Some(PriceView::Amount(m)) && m
                >= bid_value(buys[i].price@)->0->Amount_0 && exists|k: int|
                0 <= k < buys.len() && #[trigger] bid_value(buys[k].price@) == Some(
                    PriceView::Amount(m),
                ))
            &&& 0 <= i < sells.len() && (ask_value(sells[i].price@) matches Some(
                PriceView::Amount(v),
            )) ==> after.contains_key(id) && (after[id].ask matches Some(PriceView::Amount(m)) && m
                <= ask_value(sells[i].price@)->0->Amount_0 && exists|k: int|
                0 <= k < sells.len() && #[trigger] ask_value(sells[k].price@) == Some(
                    PriceView::Amount(m),
                ))
            &&& (forall|k: int| 0 <= k < buys.len() ==> #[trigger] bid_value(buys[k].price@) is None)
                && table.contains_key(id) ==> after.contains_key(id) && after[id].bid
                == table[id].bid
            &&& (forall|k: int|
                0 <= k < sells.len() ==> #[trigger] ask_value(sells[k].price@) is None)
                && table.contains_key(id) ==> after.contains_key(id) && after[id].ask
                == table[id].ask
        }),
        told(table, MarketMessage::Other) == table,
{
    let book = message->Book_0;
    lemma_best_bid(book.buys@);
    lemma_best_ask(book.sells@);
}

/// Where no level of a side has an amount but one can be read, the side is told to have no
/// amount.
pub proof fn law_side_without_amounts_has_none(levels: Seq<BookLevel>)
    ensures
        best_bid(levels) == Some(PriceView::NoAmount) <==> {
            &&& exists|i: int|
                0 <= i < levels.len() && #[trigger] bid_value(levels[i].price@) == Some(
                    PriceView::NoAmount,
                )
            &&& forall|i: int|
                0 <= i < levels.len() ==> !(#[trigger] bid_value(levels[i].price@) matches Some(
                    PriceView::Amount(_),
                ))
        },
        best_ask(levels) == Some(PriceView::NoAmount) <==> {
            &&& exists|i: int|
                0 <= i < levels.len() && #[trigger] ask_value(levels[i].price@) == Some(
                    PriceView::NoAmount,
                )
            &&& forall|i: int|
                0 <= i < levels.len() ==> !(#[trigger] ask_value(levels[i].price@) matches Some(
                    PriceView::Amount(_),
                ))
        },
{
    lemma_best_bid(levels);
    lemma_best_ask(levels);
}

/// A price on the wire is the amount that its numeral spells, below the limit on either
/// side of zero; a bid is cut and an ask rounded up to a unit. White space around it makes no
/// difference, and what spells nothing is no price.
pub proof fn law_price_is_what_its_numeral_spells(
    front: Seq<char>,
    text: Seq<char>,
    back: Seq<char>,
    v: int,
)
    requires
        text.len() > 0,
        !is_blank(text[0]),
        !is_blank(text.last()),
        forall|i: int| 0 <= i < front.len() ==> is_blank(#[trigger] front[i]),
        forall|i: int| 0 <= i < back.len() ==> is_blank(#[trigger] back[i]),
        !is_not_a_number(text),
    ensures
        bid_value(front + text + back) == bid_value(text),
        ask_value(front + text + back) == ask_value(text),
        bid_value(text) == Some(PriceView::Amount(v)) <==> decimal_value(text) == Some(v) && -LIMIT
            < v < LIMIT,
        ask_value(text) == Some(PriceView::Amount(v)) <==> reading(text, true) == Some(v) && -LIMIT
            < v < LIMIT,
        bid_value(text) is None <==> decimal_value(text) is None,
        ask_value(text) is None <==> decimal_value(text) is None,
{
    lemma_trimmed(front, text, back);
    assert(Seq::<char>::empty() + text + Seq::<char>::empty() =~= text);
    lemma_trimmed(Seq::empty(), text, Seq::empty());
}

/// What is no number is no amount, on either side.
pub proof fn law_no_number_is_no_amount(text: Seq<char>)
    requires
        text.len() > 0,
        !is_blank(text[0]),
        !is_blank(text.last()),
        is_not_a_number(text),
    ensures
        bid_value(text) == Some(PriceView::NoAmount),
        ask_value(text) == Some(PriceView::NoAmount),
{
    assert(Seq::<char>::empty() + text + Seq::<char>::empty() =~= text);
    lemma_trimmed(Seq::empty(), text, Seq::empty());
}

proof fn lemma_trimmed(front: Seq<char>, text: Seq<char>, back: Seq<char>)
    requires
        text.len() > 0,
        !is_blank(text[0]),
        !is_blank(text.last()),
        forall|i: int| 0 <= i < front.len() ==> is_blank(#[trigger] front[i]),
        forall|i: int| 0 <= i < back.len() ==> is_blank(#[trigger] back[i]),
    ensures
        trimmed(front + text + back) == text,
    decreases front.len() + back.len(),
{
    let s = front + text + back;
    if front.len() > 0 {
        let rest = front.drop_first();
        assert forall|i: int| 0 <= i < rest.len() implies is_blank(#[trigger] rest[i]) by {
            assert(rest[i] == front[i + 1]);
        }
        lemma_trimmed(rest, text, back);
        assert(is_blank(front[0]) && s[0] == front[0]);
        assert(s.drop_first() =~= rest + text + back);
    } else {
        assert(s[0] == text[0]);
        assert(s =~= text + back);
        if back.len() > 0 {
            let rest = back.drop_last();
            assert forall|i: int| 0 <= i < rest.len() implies is_blank(#[trigger] rest[i]) by {
                assert(rest[i] == back[i]);
            }
            lemma_trimmed(front, text, rest);
            assert((front + text + rest)[0] == text[0]);
            assert(is_blank(back[back.len() - 1]) && s.last() == back.last());
            assert(s.drop_last() =~= front + text + rest);
        } else {
            assert(s =~= text);
        }
    }
}

/// A text of nothing but white space is no price.
pub proof fn law_white_space_is_no_price(text: Seq<char>)
    requires
        forall|i: int| 0 <= i < text.len() ==> is_blank(#[trigger] text[i]),
    ensures
        bid_value(text) is None,
        ask_value(text) is None,
{
    lemma_all_blank(text);
    let none = Seq::<char>::empty();
    reveal_strlit("nan");
    reveal_strlit("inf");
    reveal_strlit("infinity");
    assert(none.skip(0) =~= none);
}

proof fn lemma_all_blank(text: Seq<char>)
    requires
        forall|i: int| 0 <= i < text.len() ==> is_blank(#[trigger] text[i]),
    ensures
        trimmed(text) == Seq::<char>::empty(),
    decreases text.len(),
{
    if text.len() > 0 {
        let rest = text.drop_first();
        assert forall|i: int| 0 <= i < rest.len() implies is_blank(#[trigger] rest[i]) by {
            assert(rest[i] == text[i + 1]);
        }
        assert(is_blank(text[0]));
        lemma_all_blank(rest);
    } else {
        assert(trimmed(text) =~= Seq::<char>::empty());
    }
}

/// Among the ASCII characters, exactly the space and the control characters from tab to
/// carriage return are white space.
pub proof fn law_ascii_white_space(c: char)
    requires
        (c as int) < 0x80,
    ensures
        is_blank(c) <==> c == ' ' || 9 <= c as int <= 13,
{
}

/// An event type announces a book or price changes exactly when it is called so.
pub proof fn law_event_types_are_told_apart(event_type: Seq<char>)
    ensures
        kind_of(Some(event_type)) == EventKind::Book <==> event_type == "book"@,
        kind_of(Some(event_type)) == EventKind::PriceChange <==> event_type == "price_change"@,
        kind_of(None) == EventKind::Other,
{
    reveal_strlit("book");
    reveal_strlit("price_change");
    assert("book"@.len() != "price_change"@.len());
}

/// What is left of an address without the slashes at its back does not end in one, and the
/// slashes were all that was taken away.
pub proof fn law_only_slashes_are_dropped(s: Seq<char>)
    ensures
        ({
            let left = without_slashes(s);
            &&& left.len() <= s.len()
            &&& left == s.take(left.len() as int)
            &&& left.len() > 0 ==> left.last() != '/'
            &&& forall|i: int| left.len() <= i < s.len() ==> #[trigger] s[i] == '/'
        }),
    decreases s.len(),
{
    if s.len() > 0 && s.last() == '/' {
        let front = s.drop_last();
        law_only_slashes_are_dropped(front);
        let left = without_slashes(s);
        assert(left =~= s.take(left.len() as int));
        assert forall|i: int| left.len() <= i < s.len() implies #[trigger] s[i] == '/' by {
            if i < front.len() {
                assert(front[i] == '/');
            }
        }
    } else {
        assert(s.take(s.len() as int) =~= s);
    }
}

/// Ids of plain characters are listed as they are, each between quotes.
pub proof fn law_plain_ids_are_listed_as_they_are(ids: Seq<Seq<char>>, id: Seq<char>)
    requires
        forall|i: int|
            0 <= i < id.len() ==> (#[trigger] id[i]) as int >= 0x20 && id[i] != '"' && id[i] != '\\',
    ensures
        escaped_text(id) == id,
        json_array(seq![id]) == seq!['[', '"'] + id + seq!['"', ']'],
        ids.len() > 0 ==> json_array(ids.push(id)) == json_array(ids).drop_last() + seq![',', '"']
            + id + seq!['"', ']'],
        subscription_around(json_array(seq![id])) == "{\"assets_ids\":"@ + json_array(seq![id])
            + ",\"type\":\"market\"}"@,
{
    lemma_plain(id);
    let one = seq![id];
    assert(one.drop_last() =~= seq![]);
    assert(one.last() == id);
    reveal_with_fuel(json_strings, 2);
    assert(json_array(one) =~= seq!['[', '"'] + id + seq!['"', ']']);
    if ids.len() > 0 {
        let more = ids.push(id);
        assert(more.drop_last() =~= ids);
        assert(json_array(ids).drop_last() =~= seq!['['] + json_strings(ids));
        assert(json_array(more) =~= json_array(ids).drop_last() + seq![',', '"'] + id
            + seq!['"', ']']);
    }
}

proof fn lemma_plain(id: Seq<char>)
    requires
        forall|i: int|
            0 <= i < id.len() ==> (#[trigger] id[i]) as int >= 0x20 && id[i] != '"' && id[i] != '\\',
    ensures
        escaped_text(id) == id,
    decreases id.len(),
{
    if id.len() > 0 {
        let front = id.drop_last();
        assert forall|i: int| 0 <= i < front.len() implies (#[trigger] front[i]) as int >= 0x20
            && front[i] != '"' && front[i] != '\\' by {
            assert(front[i] == id[i]);
        }
        lemma_plain(front);
        assert(id[id.len() - 1] == id.last());
        assert(front + seq![id.last()] =~= id);
    } else {
        assert(escaped_text(id) =~= id);
    }
}

/// The values of prices are those of their own sides.
pub proof fn law_price_values_are_the_fields(prices: BestPrices, price: Price)
    ensures
        prices.bid is None <==> prices@.bid is None,
        prices.ask is None <==> prices@.ask is None,
        prices.bid == Some(price) ==> prices@.bid == Some(price@),
        prices.ask == Some(price) ==> prices@.ask == Some(price@),
        price matches Price::Amount(d) ==> price@ == PriceView::Amount(d@),
        price is NoAmount ==> price@ is NoAmount,
{
}

/// Item by item, a stream tells what its next item brings: a text is read as its message,
/// unless it only answers a ping; a ping changes nothing; and nothing follows the end.
pub proof fn law_stream_goes_item_by_item(
    table: Map<Seq<char>, Quote>,
    item: Inbound,
    rest: Seq<Inbound>,
    read: spec_fn(Seq<char>) -> MarketMessage,
)
    ensures
        ({
            let after = streamed(table, seq![item] + rest, read);
            &&& item matches Inbound::Text(t) ==> t@ != "PONG"@ && t@ != "pong"@ ==> after
                == streamed(told(table, read(t@)), rest, read)
            &&& item matches Inbound::Text(t) ==> t@ == "PONG"@ || t@ == "pong"@ ==> after
                == streamed(table, rest, read)
            &&& item is Ping || item is Other ==> after == streamed(table, rest, read)
            &&& item is Close || item is Failed || item is Ended ==> after == table
        }),
        streamed(table, Seq::<Inbound>::empty(), read) == table,
{
    assert((seq![item] + rest).drop_first() =~= rest);
}

} // verus!
