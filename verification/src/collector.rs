//! The price collector: what is asked of the venues, how their answers are read, and
//! which of the collected prices come close to an arbitrage.

use crate::ranking::{are_lowest, lowest};
use crate::text::{chars_of, chain, concatenated, joined, owned, texts};
use std::collections::HashSet;
use vstd::prelude::*;
use vstd::string::*;

verus! {

broadcast use vstd::std_specs::hash::group_hash_axioms;

/// The series of games that are collected from Kalshi.
pub fn kalshi_series() -> (series: Vec<String>)
    ensures
        texts(series@) == seq!["KXEPLGAME"@, "KXNBAGAME"@, "KXNFLGAME"@],
{
    let series: Vec<String> = vec![owned("KXEPLGAME"), owned("KXNBAGAME"), owned("KXNFLGAME")];
    assert(texts(series@) =~= seq!["KXEPLGAME"@, "KXNBAGAME"@, "KXNFLGAME"@]);
    series
}

/// The parts of [`kalshi_url`].
pub open spec fn kalshi_url_parts(series: Seq<char>) -> Seq<Seq<char>> {
    seq![
        "https://api.elections.kalshi.com/trade-api/v2"@,
        "/markets?series_ticker="@,
        series,
        "&limit=100"@,
    ]
}

/// Where the markets of a series are asked for.
pub fn kalshi_url(series: &str) -> (url: String)
    ensures
        url@ == concatenated(kalshi_url_parts(series@)),
{
    let parts: Vec<String> = vec![
        owned("https://api.elections.kalshi.com/trade-api/v2"),
        owned("/markets?series_ticker="),
        owned(series),
        owned("&limit=100"),
    ];
    assert(texts(parts@) =~= kalshi_url_parts(series@));
    chain(&parts)
}

/// The parts of [`gamma_url`].
pub open spec fn gamma_url_parts() -> Seq<Seq<char>> {
    seq![
        "https://gamma-api.polymarket.com"@,
        "/events?active=true&closed=false&limit=100&tag=sports"@,
    ]
}

/// Where the events of Polymarket are asked for.
pub fn gamma_url() -> (url: String)
    ensures
        url@ == concatenated(gamma_url_parts()),
{
    let parts: Vec<String> = vec![
        owned("https://gamma-api.polymarket.com"),
        owned("/events?active=true&closed=false&limit=100&tag=sports"),
    ];
    assert(texts(parts@) =~= gamma_url_parts());
    chain(&parts)
}

/// What is stripped from both ends of a text.
#[derive(Debug, Clone, Copy, PartialEq, Eq, Structural)]
pub enum Margin {
    /// Square brackets, opening or closing.
    Brackets,
    /// White space, as Unicode has it.
    Whitespace,
    /// Double quotes.
    Quotes,
}

/// Whether a character has the Unicode property `White_Space`.
pub open spec fn is_white(c: char) -> bool {
    let n = c as int;
    ||| 0x9 <= n <= 0xD
    ||| n == 0x20
    ||| n == 0x85
    ||| n == 0xA0
    ||| n == 0x1680
    ||| 0x2000 <= n <= 0x200A
    ||| n == 0x2028
    ||| n == 0x2029
    ||| n == 0x202F
    ||| n == 0x205F
    ||| n == 0x3000
}

impl Margin {
    /// Whether a character is stripped.
    pub open spec fn holds(self, c: char) -> bool {
        match self {
            Margin::Brackets => c == '[' || c == ']',
            Margin::Whitespace => is_white(c),
            Margin::Quotes => c == '"',
        }
    }

    /// Whether a character is stripped.
    pub fn strips(&self, c: char) -> (yes: bool)
        ensures
            yes == self.holds(c),
    {
        match self {
            Margin::Brackets => c == '[' || c == ']',
            Margin::Whitespace => {
                let n: u32 = c as u32;
                (0x9 <= n && n <= 0xD) || n == 0x20 || n == 0x85 || n == 0xA0 || n == 0x1680 || (
                0x2000 <= n && n <= 0x200A) || n == 0x2028 || n == 0x2029 || n == 0x202F || n
                    == 0x205F || n == 0x3000
            },
            Margin::Quotes => c == '"',
        }
    }
}

/// A text without its margin in front.
pub open spec fn without_front(s: Seq<char>, margin: Margin) -> Seq<char>
    decreases s.len(),
{
    if s.len() > 0 && margin.holds(s.first()) {
        without_front(s.drop_first(), margin)
    } else {
        s
    }
}

/// A text without its margin at the end.
pub open spec fn without_back(s: Seq<char>, margin: Margin) -> Seq<char>
    decreases s.len(),
{
    if s.len() > 0 && margin.holds(s.last()) {
        without_back(s.drop_last(), margin)
    } else {
        s
    }
}

/// A text without its margin on either side.
pub open spec fn trimmed(s: Seq<char>, margin: Margin) -> Seq<char> {
    without_back(without_front(s, margin), margin)
}

/// A text without its margin on either side.
pub fn trim(s: &str, margin: Margin) -> (inner: String)
    ensures
        inner@ == trimmed(s@, margin),
{
    let chars: Vec<char> = chars_of(s);
    let mut from: usize = 0;
    assert(s@.skip(0) =~= s@);
    while from < chars.len() && margin.strips(chars[from])
        invariant
            from <= chars@.len(),
            chars@ == s@,
            without_front(s@, margin) == without_front(s@.skip(from as int), margin),
        decreases chars@.len() - from,
    {
        assert(s@.skip(from as int).drop_first() =~= s@.skip(from + 1));
        from += 1;
    }
    let ghost rest = s@.skip(from as int);
    assert(without_front(s@, margin) == rest);
    let mut to: usize = chars.len();
    assert(s@.subrange(from as int, to as int) =~= rest);
    while from < to && margin.strips(chars[to - 1])
        invariant
            from <= to <= chars@.len(),
            chars@ == s@,
            without_back(rest, margin) == without_back(
                s@.subrange(from as int, to as int),
                margin,
            ),
        decreases to,
    {
        assert(s@.subrange(from as int, to as int).drop_last() =~= s@.subrange(
            from as int,
            to - 1,
        ));
        to -= 1;
    }
    s.substring_char(from, to).to_owned()
}

/// The parts of a text between its commas.
pub open spec fn comma_parts(s: Seq<char>) -> Seq<Seq<char>>
    decreases s.len(),
{
    if s.len() == 0 {
        seq![Seq::empty()]
    } else {
        let before = comma_parts(s.drop_last());
        if s.last() == ',' {
            before.push(Seq::empty())
        } else {
            before.drop_last().push(before.last().push(s.last()))
        }
    }
}

/// The parts of a text between its commas.
pub fn split_commas(s: &str) -> (parts: Vec<String>)
    ensures
        texts(parts@) == comma_parts(s@),
{
    let chars: Vec<char> = chars_of(s);
    let mut parts: Vec<String> = Vec::new();
    let mut from: usize = 0;
    let mut i: usize = 0;
    assert(s@.subrange(0, 0) =~= Seq::<char>::empty());
    assert(comma_parts(s@.take(0)) =~= texts(parts@).push(s@.subrange(0, 0)));
    while i < chars.len()
        invariant
            from <= i <= chars@.len(),
            chars@ == s@,
            comma_parts(s@.take(i as int)) == texts(parts@).push(
                s@.subrange(from as int, i as int),
            ),
        decreases chars@.len() - i,
    {
        let ghost done = texts(parts@);
        let ghost open = s@.subrange(from as int, i as int);
        assert(s@.take(i + 1).drop_last() =~= s@.take(i as int));
        assert(done.push(open).drop_last() =~= done);
        if chars[i] == ',' {
            parts.push(s.substring_char(from, i).to_owned());
            assert(texts(parts@) =~= done.push(open));
            from = i + 1;
            assert(s@.subrange(i + 1, i + 1) =~= Seq::<char>::empty());
        } else {
            assert(s@.subrange(from as int, i + 1) =~= open.push(s@[i as int]));
        }
        i += 1;
    }
    let ghost done = texts(parts@);
    parts.push(s.substring_char(from, i).to_owned());
    assert(s@.take(i as int) =~= s@);
    assert(texts(parts@) =~= done.push(s@.subrange(from as int, i as int)));
    parts
}

/// The prices in a list such as `["0.45","0.55"]`: what stands between its commas,
/// without brackets, white space and quotes.
pub open spec fn listed_prices(s: Seq<char>) -> Seq<Seq<char>> {
    let parts = comma_parts(trimmed(s, Margin::Brackets));
    Seq::new(
        parts.len(),
        |i: int| trimmed(trimmed(parts[i], Margin::Whitespace), Margin::Quotes),
    )
}

/// The prices in a list such as `["0.45","0.55"]`.
pub fn outcome_prices(s: &str) -> (prices: Vec<String>)
    ensures
        texts(prices@) == listed_prices(s@),
{
    let inner: String = trim(s, Margin::Brackets);
    let parts: Vec<String> = split_commas(inner.as_str());
    let mut prices: Vec<String> = Vec::new();
    let mut i: usize = 0;
    while i < parts.len()
        invariant
            i <= parts@.len(),
            prices@.len() == i,
            texts(parts@) == comma_parts(trimmed(s@, Margin::Brackets)),
            forall|j: int|
                0 <= j < i ==> (#[trigger] prices@[j])@ == trimmed(
                    trimmed(parts@[j]@, Margin::Whitespace),
                    Margin::Quotes,
                ),
        decreases parts@.len() - i,
    {
        let bare: String = trim(parts[i].as_str(), Margin::Whitespace);
        prices.push(trim(bare.as_str(), Margin::Quotes));
        i += 1;
    }
    assert(texts(prices@) =~= listed_prices(s@)) by {
        assert forall|j: int| 0 <= j < prices@.len() implies #[trigger] texts(prices@)[j]
            == listed_prices(s@)[j] by {
            assert(texts(parts@)[j] == parts@[j]@);
            assert(prices@[j]@ == trimmed(
                trimmed(parts@[j]@, Margin::Whitespace),
                Margin::Quotes,
            ));
        }
    }
    prices
}

/// A market of Polymarket, as far as it is read.
#[derive(Debug)]
pub struct GammaMarket {
    pub outcome_prices: Option<String>,
}

/// An event of Polymarket, as far as it is read.
#[derive(Debug)]
pub struct GammaEvent {
    pub slug: Option<String>,
    pub title: Option<String>,
    pub markets: Option<Vec<GammaMarket>>,
}

/// A pair of prices of Polymarket, as they are written.
#[derive(Debug)]
pub struct PolyQuote {
    pub slug: String,
    pub title: String,
    pub yes_price: String,
    pub no_price: String,
}

/// What a pair of prices of Polymarket holds.
pub struct PolyQuoteText {
    pub slug: Seq<char>,
    pub title: Seq<char>,
    pub yes_price: Seq<char>,
    pub no_price: Seq<char>,
}

impl View for PolyQuote {
    type V = PolyQuoteText;

    open spec fn view(&self) -> PolyQuoteText {
        PolyQuoteText {
            slug: self.slug@,
            title: self.title@,
            yes_price: self.yes_price@,
            no_price: self.no_price@,
        }
    }
}

/// An optional text, empty where there is none.
pub open spec fn or_empty(s: Option<String>) -> Seq<char> {
    match s {
        Some(t) => t@,
        None => Seq::empty(),
    }
}

/// An optional text, empty where there is none.
fn text_or_empty(s: &Option<String>) -> (text: String)
    ensures
        text@ == or_empty(*s),
{
    match s {
        Some(t) => t.clone(),
        None => String::new(),
    }
}

/// The prices of the markets of an event: of each that lists at least two, the
/// first two.
pub open spec fn market_quotes(event: GammaEvent, markets: Seq<GammaMarket>) -> Seq<PolyQuoteText>
    decreases markets.len(),
{
    if markets.len() == 0 {
        Seq::empty()
    } else {
        let before = market_quotes(event, markets.drop_last());
        match markets.last().outcome_prices {
            Some(list) => {
                let prices = listed_prices(list@);
                if prices.len() >= 2 {
                    before.push(
                        PolyQuoteText {
                            slug: or_empty(event.slug),
                            title: or_empty(event.title),
                            yes_price: prices[0],
                            no_price: prices[1],
                        },
                    )
                } else {
                    before
                }
            },
            None => before,
        }
    }
}

/// The prices of an event.
pub open spec fn event_quotes(event: GammaEvent) -> Seq<PolyQuoteText> {
    match event.markets {
        Some(markets) => market_quotes(event, markets@),
        None => Seq::empty(),
    }
}

/// The prices of all events, in order.
pub open spec fn all_quotes(events: Seq<GammaEvent>) -> Seq<PolyQuoteText>
    decreases events.len(),
{
    if events.len() == 0 {
        Seq::empty()
    } else {
        all_quotes(events.drop_last()) + event_quotes(events.last())
    }
}

/// What each pair of prices of a list holds.
pub open spec fn quote_texts(quotes: Seq<PolyQuote>) -> Seq<PolyQuoteText> {
    Seq::new(quotes.len(), |i: int| quotes[i]@)
}

/// Appends the prices of an event.
fn push_event_quotes(quotes: &mut Vec<PolyQuote>, event: &GammaEvent)
    ensures
        quote_texts(final(quotes)@) == quote_texts(old(quotes)@) + event_quotes(*event),
{
    let ghost start = quote_texts(quotes@);
    match &event.markets {
        Some(markets) => {
            let mut i: usize = 0;
            assert(quote_texts(quotes@) =~= start + market_quotes(*event, markets@.take(0)));
            while i < markets.len()
                invariant
                    i <= markets@.len(),
                    quote_texts(quotes@) == start + market_quotes(
                        *event,
                        markets@.take(i as int),
                    ),
                decreases markets@.len() - i,
            {
                let ghost before = market_quotes(*event, markets@.take(i as int));
                let ghost so_far = quote_texts(quotes@);
                assert(markets@.take(i + 1).drop_last() =~= markets@.take(i as int));
                if let Some(list) = &markets[i].outcome_prices {
                    let prices: Vec<String> = outcome_prices(list.as_str());
                    if prices.len() >= 2 {
                        let quote = PolyQuote {
                            slug: text_or_empty(&event.slug),
                            title: text_or_empty(&event.title),
                            yes_price: prices[0].clone(),
                            no_price: prices[1].clone(),
                        };
                        assert(texts(prices@)[0] == prices@[0]@);
                        assert(texts(prices@)[1] == prices@[1]@);
                        quotes.push(quote);
                        assert(quote_texts(quotes@) =~= so_far.push(quote@));
                        assert(start + before.push(quote@) =~= (start + before).push(quote@));
                    }
                }
                i += 1;
            }
            assert(markets@.take(i as int) =~= markets@);
        },
        None => {
            assert(start + Seq::<PolyQuoteText>::empty() =~= start);
        },
    }
}

/// The prices of all events, in order.
pub fn poly_quotes(events: &Vec<GammaEvent>) -> (quotes: Vec<PolyQuote>)
    ensures
        quote_texts(quotes@) == all_quotes(events@),
{
    let mut quotes: Vec<PolyQuote> = Vec::new();
    let mut i: usize = 0;
    assert(quote_texts(quotes@) =~= all_quotes(events@.take(0)));
    while i < events.len()
        invariant
            i <= events@.len(),
            quote_texts(quotes@) == all_quotes(events@.take(i as int)),
        decreases events@.len() - i,
    {
        assert(events@.take(i + 1).drop_last() =~= events@.take(i as int));
        push_event_quotes(&mut quotes, &events[i]);
        i += 1;
    }
    assert(events@.take(i as int) =~= events@);
    quotes
}

/// Trimming leaves no margin on either side.
pub proof fn trimmed_has_no_margin(s: Seq<char>, margin: Margin)
    ensures
        trimmed(s, margin).len() > 0 ==> !margin.holds(trimmed(s, margin).first())
            && !margin.holds(trimmed(s, margin).last()),
        trimmed(s, margin).len() <= s.len(),
{
    lemma_without_front(s, margin);
    lemma_without_back(without_front(s, margin), margin);
}

/// What is left once the front margin is gone does not start with it.
proof fn lemma_without_front(s: Seq<char>, margin: Margin)
    ensures
        without_front(s, margin).len() > 0 ==> !margin.holds(without_front(s, margin).first()),
        without_front(s, margin).len() <= s.len(),
    decreases s.len(),
{
    if s.len() > 0 && margin.holds(s.first()) {
        lemma_without_front(s.drop_first(), margin);
    }
}

/// What is left once the margin at the end is gone does not end with it, and starts
/// as it did.
proof fn lemma_without_back(s: Seq<char>, margin: Margin)
    ensures
        without_back(s, margin).len() > 0 ==> !margin.holds(without_back(s, margin).last())
            && without_back(s, margin).first() == s.first(),
        without_back(s, margin).len() <= s.len(),
    decreases s.len(),
{
    if s.len() > 0 && margin.holds(s.last()) {
        lemma_without_back(s.drop_last(), margin);
    }
}

/// No part between commas holds a comma, and there is always at least one part.
pub proof fn comma_parts_hold_no_comma(s: Seq<char>)
    ensures
        comma_parts(s).len() >= 1,
        forall|i: int|
            0 <= i < comma_parts(s).len() ==> !(#[trigger] comma_parts(s)[i]).contains(','),
    decreases s.len(),
{
    if s.len() > 0 {
        comma_parts_hold_no_comma(s.drop_last());
        let before = comma_parts(s.drop_last());
        let after = comma_parts(s);
        assert forall|i: int| 0 <= i < after.len() implies !(#[trigger] after[i]).contains(
            ',',
        ) by {
            if i < before.len() - 1 || (i == before.len() - 1 && s.last() == ',') {
                assert(after[i] == before[i]);
            } else if s.last() != ',' {
                assert(after[i] == before.last().push(s.last()));
                assert(!before[before.len() - 1].contains(','));
                if after[i].contains(',') {
                    let k = choose|k: int| 0 <= k < after[i].len() && after[i][k] == ',';
                    assert(before.last()[k] == ',');
                }
            }
        }
    }
}

/// Where a text without commas follows a comma, it is the last part.
proof fn lemma_last_part(front: Seq<char>, last: Seq<char>)
    requires
        !last.contains(','),
    ensures
        comma_parts(front + ","@ + last) == comma_parts(front).push(last),
    decreases last.len(),
{
    reveal_strlit(",");
    let whole = front + ","@ + last;
    if last.len() == 0 {
        assert(whole.drop_last() =~= front);
        assert(last =~= Seq::<char>::empty());
    } else {
        let shorter = last.drop_last();
        assert(!shorter.contains(',')) by {
            if shorter.contains(',') {
                let k = choose|k: int| 0 <= k < shorter.len() && shorter[k] == ',';
                assert(last[k] == ',');
            }
        }
        lemma_last_part(front, shorter);
        assert(whole.drop_last() =~= front + ","@ + shorter);
        assert(last[last.len() - 1] != ',');
        assert(shorter.push(last.last()) =~= last);
        assert(comma_parts(front).push(shorter).drop_last() =~= comma_parts(front));
    }
}

/// A text without commas is one part.
proof fn lemma_single_part(s: Seq<char>)
    requires
        !s.contains(','),
    ensures
        comma_parts(s) == seq![s],
    decreases s.len(),
{
    if s.len() == 0 {
        assert(s =~= Seq::<char>::empty());
    } else {
        let shorter = s.drop_last();
        assert(!shorter.contains(',')) by {
            if shorter.contains(',') {
                let k = choose|k: int| 0 <= k < shorter.len() && shorter[k] == ',';
                assert(s[k] == ',');
            }
        }
        lemma_single_part(shorter);
        assert(s[s.len() - 1] != ',');
        assert(shorter.push(s.last()) =~= s);
        assert(comma_parts(s) =~= seq![s]);
    }
}

/// Values without commas can be read back from what joins them with commas.
pub proof fn joined_values_read_back(values: Seq<Seq<char>>)
    requires
        values.len() >= 1,
        forall|i: int| 0 <= i < values.len() ==> !(#[trigger] values[i]).contains(','),
    ensures
        comma_parts(joined(values, ","@)) == values,
    decreases values.len(),
{
    if values.len() == 1 {
        lemma_single_part(values[0]);
        assert(values =~= seq![values[0]]);
    } else {
        let front = values.drop_last();
        assert forall|i: int| 0 <= i < front.len() implies !(#[trigger] front[i]).contains(
            ',',
        ) by {
            assert(front[i] == values[i]);
        }
        joined_values_read_back(front);
        assert(!values[values.len() - 1].contains(','));
        lemma_last_part(joined(front, ","@), values.last());
        assert(front.push(values.last()) =~= values);
    }
}

/// A list of prices as the venue writes it: each between quotes, with commas between
/// them, and brackets around them all.
pub open spec fn quoted_list(prices: Seq<Seq<char>>) -> Seq<char> {
    "["@ + joined(Seq::new(prices.len(), |i: int| quoted(prices[i])), ","@) + "]"@
}

/// A text between quotes.
pub open spec fn quoted(s: Seq<char>) -> Seq<char> {
    seq!['"'] + s + seq!['"']
}

/// A text between quotes starts and ends with one.
proof fn lemma_quoted(s: Seq<char>)
    requires
        !s.contains('"'),
    ensures
        trimmed(trimmed(quoted(s), Margin::Whitespace), Margin::Quotes) == s,
{
    let q = quoted(s);
    assert(q.first() == '"' && q.last() == '"');
    assert(without_front(q, Margin::Whitespace) == q);
    assert(trimmed(q, Margin::Whitespace) == q);
    let opened = q.drop_first();
    assert(opened =~= s + seq!['"']);
    if s.len() == 0 {
        assert(opened.drop_first() =~= Seq::<char>::empty());
        assert(without_front(opened, Margin::Quotes) == without_front(
            opened.drop_first(),
            Margin::Quotes,
        ));
        assert(without_front(q, Margin::Quotes) =~= Seq::<char>::empty());
        assert(s =~= Seq::<char>::empty());
    } else {
        assert(opened.first() == s[0]);
        assert(s.contains(s[0]));
        assert(without_front(opened, Margin::Quotes) == opened);
        assert(without_front(q, Margin::Quotes) == opened);
        assert(opened.last() == '"');
        assert(opened.drop_last() =~= s);
        assert(s.contains(s[s.len() - 1]));
        assert(without_back(s, Margin::Quotes) == s);
    }
}

/// What joins texts between quotes starts and ends with a quote.
proof fn lemma_joined_quotes(prices: Seq<Seq<char>>)
    requires
        prices.len() >= 1,
    ensures
        ({
            let whole = joined(Seq::new(prices.len(), |i: int| quoted(prices[i])), ","@);
            whole.len() >= 2 && whole.first() == '"' && whole.last() == '"'
        }),
    decreases prices.len(),
{
    let parts = Seq::new(prices.len(), |i: int| quoted(prices[i]));
    assert(parts.last() == quoted(prices.last()));
    if prices.len() > 1 {
        let front = prices.drop_last();
        assert(parts.drop_last() =~= Seq::new(front.len(), |i: int| quoted(front[i])));
        lemma_joined_quotes(front);
    }
}

/// A list of prices that hold neither comma nor quote reads back as those prices.
pub proof fn price_list_reads_back(prices: Seq<Seq<char>>)
    requires
        prices.len() >= 1,
        forall|i: int|
            0 <= i < prices.len() ==> !(#[trigger] prices[i]).contains(',')
                && !prices[i].contains('"'),
    ensures
        listed_prices(quoted_list(prices)) == prices,
{
    reveal_strlit("[");
    reveal_strlit("]");
    let parts = Seq::new(prices.len(), |i: int| quoted(prices[i]));
    let inner = joined(parts, ","@);
    let list = quoted_list(prices);
    lemma_joined_quotes(prices);
    assert(list.first() == '[');
    assert(list.drop_first() =~= inner + "]"@);
    let opened = inner + "]"@;
    assert(opened.first() == '"');
    assert(without_front(opened, Margin::Brackets) == opened);
    assert(without_front(list, Margin::Brackets) == opened);
    assert(opened.last() == ']');
    assert(opened.drop_last() =~= inner);
    assert(without_back(inner, Margin::Brackets) == inner);
    assert(trimmed(list, Margin::Brackets) == inner);
    assert forall|i: int| 0 <= i < parts.len() implies !(#[trigger] parts[i]).contains(',') by {
        if parts[i].contains(',') {
            let k = choose|k: int| 0 <= k < parts[i].len() && parts[i][k] == ',';
            assert(prices[i][k - 1] == ',');
            assert(prices[i].contains(','));
        }
    }
    joined_values_read_back(parts);
    assert forall|i: int| 0 <= i < prices.len() implies #[trigger] listed_prices(list)[i]
        == prices[i] by {
        lemma_quoted(prices[i]);
        assert(parts[i] == quoted(prices[i]));
    }
    assert(listed_prices(list) =~= prices);
}

/// A price of Kalshi, as it was collected.
#[derive(Debug)]
pub struct KalshiQuote {
    pub timestamp: i64,
    pub ticker: String,
    pub yes_ask: Option<i64>,
    pub no_ask: Option<i64>,
}

/// Which quotes are wanted.
#[derive(Debug, Clone, Copy, PartialEq, Eq, Structural)]
pub struct Wanted {
    /// The moment at which they were collected, where it matters.
    pub at: Option<i64>,
    /// What both sides must cost less than, where it matters.
    pub below: Option<i64>,
}

impl KalshiQuote {
    /// What both sides cost together, where both have a price.
    pub open spec fn cost(self) -> Option<int> {
        match (self.yes_ask, self.no_ask) {
            (Some(yes), Some(no)) => Some(yes + no),
            _ => None,
        }
    }

    /// Whether both sides have a price, and the quote is one of those wanted.
    pub open spec fn eligible(self, wanted: Wanted) -> bool {
        &&& self.cost() is Some
        &&& wanted.at is Some ==> self.timestamp == wanted.at->0
        &&& wanted.below is Some ==> self.cost()->0 < wanted.below->0
    }

    /// The cost of both sides, where both have a price and the quote is one of those
    /// wanted.
    fn eligible_cost(&self, wanted: Wanted) -> (cost: Option<i128>)
        ensures
            match cost {
                Some(c) => self.eligible(wanted) && self.cost() == Some(c as int),
                None => !self.eligible(wanted),
            },
    {
        match self.total() {
            Some(cost) => {
                if let Some(timestamp) = wanted.at {
                    if self.timestamp != timestamp {
                        return None;
                    }
                }
                if let Some(limit) = wanted.below {
                    if cost >= limit as i128 {
                        return None;
                    }
                }
                Some(cost)
            },
            None => None,
        }
    }

    /// What both sides cost together, where both have a price.
    fn total(&self) -> (cost: Option<i128>)
        ensures
            match cost {
                Some(c) => self.cost() == Some(c as int),
                None => self.cost() is None,
            },
    {
        match (self.yes_ask, self.no_ask) {
            (Some(yes), Some(no)) => Some(yes as i128 + no as i128),
            _ => None,
        }
    }
}

/// The key by which the cheapest comes first, and what is not eligible last.
pub open spec fn cost_key(quote: KalshiQuote, wanted: Wanted) -> i128 {
    if quote.eligible(wanted) {
        quote.cost()->0 as i128
    } else {
        0x4_0000_0000_0000_0000
    }
}

/// The keys of a list of quotes.
pub open spec fn cost_keys(quotes: Seq<KalshiQuote>, wanted: Wanted) -> Seq<i128> {
    Seq::new(quotes.len(), |i: int| cost_key(quotes[i], wanted))
}

/// Whether `chosen` are the `limit` cheapest eligible quotes, the cheapest first.
pub open spec fn are_cheapest(
    quotes: Seq<KalshiQuote>,
    wanted: Wanted,
    limit: nat,
    chosen: Seq<usize>,
) -> bool {
    exists|picked: Seq<usize>|
        {
            &&& #[trigger] are_lowest(cost_keys(quotes, wanted), picked, limit)
            &&& chosen.len() <= picked.len()
            &&& forall|k: int|
                0 <= k < picked.len() ==> (quotes[(#[trigger] picked[k]) as int].eligible(wanted)
                    <==> k < chosen.len())
            &&& forall|k: int|
                0 <= k < chosen.len() ==> #[trigger] chosen[k] == picked[k]
        }
}

/// The `limit` cheapest eligible quotes, the cheapest first.
pub fn cheapest(quotes: &Vec<KalshiQuote>, wanted: Wanted, limit: usize) -> (chosen: Vec<usize>)
    ensures
        are_cheapest(quotes@, wanted, limit as nat, chosen@),
        forall|k: int|
            0 <= k < chosen@.len() ==> 0 <= (#[trigger] chosen@[k]) < quotes@.len()
                && quotes@[chosen@[k] as int].eligible(wanted),
{
    let mut keys: Vec<i128> = Vec::new();
    let mut i: usize = 0;
    while i < quotes.len()
        invariant
            i <= quotes@.len(),
            keys@.len() == i,
            forall|j: int| 0 <= j < i ==> #[trigger] keys@[j] == cost_keys(quotes@, wanted)[j],
        decreases quotes@.len() - i,
    {
        let key: i128 = match quotes[i].eligible_cost(wanted) {
            Some(cost) => cost,
            None => 0x4_0000_0000_0000_0000,
        };
        keys.push(key);
        i += 1;
    }
    assert(keys@ =~= cost_keys(quotes@, wanted));
    let picked: Vec<usize> = lowest(&keys, limit);
    let mut chosen: Vec<usize> = Vec::new();
    let mut k: usize = 0;
    while k < picked.len() && keys[picked[k]] < 0x4_0000_0000_0000_0000
        invariant
            k <= picked@.len(),
            keys@ == cost_keys(quotes@, wanted),
            are_lowest(cost_keys(quotes@, wanted), picked@, limit as nat),
            chosen@ == picked@.take(k as int),
            forall|j: int|
                0 <= j < k ==> quotes@[(#[trigger] picked@[j]) as int].eligible(wanted),
        decreases picked@.len() - k,
    {
        assert(0 <= picked@[k as int] < keys@.len());
        assert(cost_key(quotes@[picked@[k as int] as int], wanted) == keys@[picked@[k as int] as int]);
        chosen.push(picked[k]);
        k += 1;
        assert(chosen@ =~= picked@.take(k as int));
    }
    assert forall|j: int| 0 <= j < picked@.len() implies (quotes@[(
    #[trigger] picked@[j]) as int].eligible(wanted) <==> j < chosen@.len()) by {
        if j >= k {
            assert(crate::ranking::precedes(keys@, picked@[k as int] as int, picked@[j] as int)
                || j == k);
            assert(cost_key(quotes@[picked@[j] as int], wanted) == keys@[picked@[j] as int]);
        }
    }
    chosen
}

/// Why quotes cannot be given.
#[derive(Debug, Clone, Copy, PartialEq, Eq, Structural)]
pub enum QuoteError {
    /// A cost, or the profit that it leaves, does not fit in 64 bits.
    CostOutOfRange,
}

/// Whether a cost fits in 64 bits, and so does what it leaves of a dollar.
pub open spec fn cost_fits(cost: int) -> bool {
    100 - i64::MAX <= cost <= i64::MAX
}

/// A pair of asks that comes close to an arbitrage.
#[derive(Debug)]
pub struct NearArb {
    pub ticker: String,
    pub cost: i64,
    pub profit: i64,
}

impl NearArb {
    /// Whether this tells of a quote: what its sides cost, and what that leaves of a
    /// dollar after the fee.
    pub open spec fn tells_of(self, quote: KalshiQuote) -> bool {
        &&& self.ticker == quote.ticker
        &&& quote.cost() == Some(self.cost as int)
        &&& self.profit == 100 - self.cost - 2
    }
}

/// The limit below which a pair of asks is close to an arbitrage: five cents above
/// the payout.
pub const NEAR_ARB_LIMIT: i64 = 105;

/// How many are shown.
pub const NEAR_ARB_COUNT: usize = 10;

/// The quotes of a moment that are close to an arbitrage.
pub open spec fn near_arb_at(timestamp: i64) -> Wanted {
    Wanted { at: Some(timestamp), below: Some(NEAR_ARB_LIMIT) }
}

/// The quotes of a moment that come closest to an arbitrage, the cheapest first, each with the
/// profit that a payout of a dollar leaves after its cost and a fee of two cents.
pub fn find_near_arbs(
    quotes: &Vec<KalshiQuote>,
    timestamp: i64,
) -> (found: Result<Vec<NearArb>, QuoteError>)
    ensures
        exists|chosen: Seq<usize>| #[trigger]
            are_cheapest(quotes@, near_arb_at(timestamp), NEAR_ARB_COUNT as nat, chosen) && match found {
                Ok(arbs) => {
                    &&& arbs@.len() == chosen.len()
                    &&& forall|k: int|
                        0 <= k < arbs@.len() ==> {
                            &&& (#[trigger] arbs@[k]).ticker == quotes@[chosen[k] as int].ticker
                            &&& quotes@[chosen[k] as int].cost() == Some(arbs@[k].cost as int)
                            &&& cost_fits(arbs@[k].cost as int)
                            &&& arbs@[k].profit == 100 - arbs@[k].cost - 2
                            &&& arbs@[k].tells_of(quotes@[chosen[k] as int])
                        }
                },
                Err(_) => exists|k: int|
                    0 <= k < chosen.len() && !cost_fits(
                        quotes@[(#[trigger] chosen[k]) as int].cost()->0,
                    ),
            },
{
    let chosen: Vec<usize> = cheapest(
        quotes,
        Wanted { at: Some(timestamp), below: Some(NEAR_ARB_LIMIT) },
        NEAR_ARB_COUNT,
    );
    let mut arbs: Vec<NearArb> = Vec::new();
    let mut k: usize = 0;
    while k < chosen.len()
        invariant
            k <= chosen@.len(),
            are_cheapest(quotes@, near_arb_at(timestamp), NEAR_ARB_COUNT as nat, chosen@),
            forall|j: int|
                0 <= j < chosen@.len() ==> 0 <= (#[trigger] chosen@[j]) < quotes@.len()
                    && quotes@[chosen@[j] as int].eligible(near_arb_at(timestamp)),
            arbs@.len() == k,
            forall|j: int|
                0 <= j < k ==> {
                    &&& (#[trigger] arbs@[j]).ticker == quotes@[chosen@[j] as int].ticker
                    &&& quotes@[chosen@[j] as int].cost() == Some(arbs@[j].cost as int)
                    &&& cost_fits(arbs@[j].cost as int)
                    &&& arbs@[j].profit == 100 - arbs@[j].cost - 2
                },
        decreases chosen@.len() - k,
    {
        let quote: &KalshiQuote = &quotes[chosen[k]];
        match quote.total() {
            Some(cost) => {
                if cost < 100 - i64::MAX as i128 {
                    assert(!cost_fits(quotes@[chosen@[k as int] as int].cost()->0));
                    return Err(QuoteError::CostOutOfRange);
                }
                arbs.push(
                    NearArb {
                        ticker: quote.ticker.clone(),
                        cost: cost as i64,
                        profit: 100 - cost as i64 - 2,
                    },
                );
            },
            None => {
                assert(false);
            },
        }
        k += 1;
    }
    Ok(arbs)
}

/// Every near arbitrage was collected at the moment asked for, costs less than the
/// limit, leaves at least what the limit leaves, and none is dearer than a later one.
pub proof fn near_arbs_come_cheapest_first(
    quotes: Seq<KalshiQuote>,
    timestamp: i64,
    chosen: Seq<usize>,
    i: int,
    j: int,
)
    requires
        are_cheapest(quotes, near_arb_at(timestamp), NEAR_ARB_COUNT as nat, chosen),
        0 <= i <= j < chosen.len(),
    ensures
        quotes[chosen[i] as int].timestamp == timestamp,
        quotes[chosen[i] as int].cost()->0 < NEAR_ARB_LIMIT,
        quotes[chosen[i] as int].cost()->0 <= quotes[chosen[j] as int].cost()->0,
        100 - quotes[chosen[i] as int].cost()->0 - 2 > -7,
        chosen.len() <= NEAR_ARB_COUNT,
{
    let wanted = near_arb_at(timestamp);
    let keys = cost_keys(quotes, wanted);
    let picked = choose|picked: Seq<usize>|
        {
            &&& #[trigger] are_lowest(keys, picked, NEAR_ARB_COUNT as nat)
            &&& chosen.len() <= picked.len()
            &&& forall|k: int|
                0 <= k < picked.len() ==> (quotes[(#[trigger] picked[k]) as int].eligible(wanted)
                    <==> k < chosen.len())
            &&& forall|k: int| 0 <= k < chosen.len() ==> #[trigger] chosen[k] == picked[k]
        };
    assert(quotes[picked[i] as int].eligible(wanted));
    assert(quotes[picked[j] as int].eligible(wanted));
    assert(keys[picked[i] as int] == cost_key(quotes[picked[i] as int], wanted));
    assert(keys[picked[j] as int] == cost_key(quotes[picked[j] as int], wanted));
    if i < j {
        assert(crate::ranking::precedes(keys, picked[i] as int, picked[j] as int));
    }
}

/// A quote among the cheapest of all moments.
#[derive(Debug)]
pub struct BestQuote {
    pub timestamp: i64,
    pub ticker: String,
    pub yes_ask: i64,
    pub no_ask: i64,
    pub cost: i64,
}

impl BestQuote {
    /// Whether this tells of a quote.
    pub open spec fn tells_of(self, quote: KalshiQuote) -> bool {
        &&& self.timestamp == quote.timestamp
        &&& self.ticker == quote.ticker
        &&& quote.yes_ask == Some(self.yes_ask)
        &&& quote.no_ask == Some(self.no_ask)
        &&& self.cost == self.yes_ask + self.no_ask
    }
}

/// How many of the best quotes are shown.
pub const BEST_QUOTE_COUNT: usize = 20;

/// All quotes with both prices.
pub open spec fn any_quote() -> Wanted {
    Wanted { at: None, below: None }
}

/// The cheapest quotes of all moments, the cheapest first.
pub fn best_quotes(quotes: &Vec<KalshiQuote>) -> (found: Result<Vec<BestQuote>, QuoteError>)
    ensures
        exists|chosen: Seq<usize>| #[trigger]
            are_cheapest(quotes@, any_quote(), BEST_QUOTE_COUNT as nat, chosen) && match found {
                Ok(best) => {
                    &&& best@.len() == chosen.len()
                    &&& forall|k: int|
                        0 <= k < best@.len() ==> (#[trigger] best@[k]).tells_of(
                            quotes@[chosen[k] as int],
                        )
                },
                Err(_) => exists|k: int|
                    0 <= k < chosen.len() && !(i64::MIN <= quotes@[(
                    #[trigger] chosen[k]) as int].cost()->0 <= i64::MAX),
            },
{
    let chosen: Vec<usize> = cheapest(quotes, Wanted { at: None, below: None }, BEST_QUOTE_COUNT);
    let mut best: Vec<BestQuote> = Vec::new();
    let mut k: usize = 0;
    while k < chosen.len()
        invariant
            k <= chosen@.len(),
            are_cheapest(quotes@, any_quote(), BEST_QUOTE_COUNT as nat, chosen@),
            forall|j: int|
                0 <= j < chosen@.len() ==> 0 <= (#[trigger] chosen@[j]) < quotes@.len()
                    && quotes@[chosen@[j] as int].eligible(any_quote()),
            best@.len() == k,
            forall|j: int|
                0 <= j < k ==> (#[trigger] best@[j]).tells_of(quotes@[chosen@[j] as int]),
        decreases chosen@.len() - k,
    {
        let quote: &KalshiQuote = &quotes[chosen[k]];
        match (quote.yes_ask, quote.no_ask) {
            (Some(yes), Some(no)) => {
                match yes.checked_add(no) {
                    Some(cost) => {
                        best.push(
                            BestQuote {
                                timestamp: quote.timestamp,
                                ticker: quote.ticker.clone(),
                                yes_ask: yes,
                                no_ask: no,
                                cost,
                            },
                        );
                    },
                    None => {
                        assert(!(i64::MIN <= quotes@[chosen@[k as int] as int].cost()->0
                            <= i64::MAX));
                        return Err(QuoteError::CostOutOfRange);
                    },
                }
            },
            _ => {
                assert(false);
            },
        }
        k += 1;
    }
    Ok(best)
}

/// How far the cost of both sides is from the payout.
#[derive(Debug, Clone, Copy, PartialEq, Eq, Structural)]
pub enum CostBucket {
    Arb,
    NearArb,
    Close,
    Efficient,
}

impl CostBucket {
    /// The bucket of a cost.
    pub open spec fn of(cost: int) -> CostBucket {
        if cost < 100 {
            CostBucket::Arb
        } else if cost < 102 {
            CostBucket::NearArb
        } else if cost < 105 {
            CostBucket::Close
        } else {
            CostBucket::Efficient
        }
    }

    /// The bucket at a place in the fixed order of the four.
    pub open spec fn at(place: int) -> CostBucket {
        if place == 0 {
            CostBucket::Arb
        } else if place == 1 {
            CostBucket::NearArb
        } else if place == 2 {
            CostBucket::Close
        } else {
            CostBucket::Efficient
        }
    }

    /// How a bucket is shown.
    pub open spec fn title(self) -> Seq<char> {
        match self {
            CostBucket::Arb => "Arb (<100)"@,
            CostBucket::NearArb => "Near-arb (100-102)"@,
            CostBucket::Close => "Close (102-105)"@,
            CostBucket::Efficient => "Efficient (>105)"@,
        }
    }

    /// How this bucket is shown.
    pub fn label(&self) -> (label: &'static str)
        ensures
            label@ == self.title(),
    {
        match self {
            CostBucket::Arb => "Arb (<100)",
            CostBucket::NearArb => "Near-arb (100-102)",
            CostBucket::Close => "Close (102-105)",
            CostBucket::Efficient => "Efficient (>105)",
        }
    }
}

/// How many quotes with both prices fall into a bucket.
pub open spec fn bucket_count(quotes: Seq<KalshiQuote>, bucket: CostBucket) -> nat
    decreases quotes.len(),
{
    if quotes.len() == 0 {
        0
    } else {
        bucket_count(quotes.drop_last(), bucket) + if quotes.last().cost() is Some
            && CostBucket::of(quotes.last().cost()->0) == bucket {
            1nat
        } else {
            0nat
        }
    }
}

/// The keys that put the fullest bucket first.
pub open spec fn bucket_keys(quotes: Seq<KalshiQuote>) -> Seq<i128> {
    Seq::new(4, |i: int| (-bucket_count(quotes, CostBucket::at(i))) as i128)
}

/// How many quotes with both prices fall into a bucket.
fn count_bucket(quotes: &Vec<KalshiQuote>, bucket: CostBucket) -> (n: u64)
    ensures
        n == bucket_count(quotes@, bucket),
        n <= quotes@.len(),
{
    let mut n: u64 = 0;
    let mut i: usize = 0;
    while i < quotes.len()
        invariant
            i <= quotes@.len(),
            n == bucket_count(quotes@.take(i as int), bucket),
            n <= i,
        decreases quotes@.len() - i,
    {
        assert(quotes@.take(i + 1).drop_last() =~= quotes@.take(i as int));
        if let Some(cost) = quotes[i].total() {
            let found: CostBucket = if cost < 100 {
                CostBucket::Arb
            } else if cost < 102 {
                CostBucket::NearArb
            } else if cost < 105 {
                CostBucket::Close
            } else {
                CostBucket::Efficient
            };
            if found == bucket {
                n = n + 1;
            }
        }
        i += 1;
    }
    assert(quotes@.take(i as int) =~= quotes@);
    n
}

/// How many quotes fall into each bucket, the fullest first. Empty buckets are left
/// out.
pub fn price_distribution(quotes: &Vec<KalshiQuote>) -> (buckets: Vec<(CostBucket, u64)>)
    ensures
        exists|picked: Seq<usize>|
            {
                &&& #[trigger] are_lowest(bucket_keys(quotes@), picked, 4)
                &&& buckets@.len() <= 4
                &&& forall|k: int|
                    0 <= k < 4 ==> (bucket_count(
                        quotes@,
                        CostBucket::at((#[trigger] picked[k]) as int),
                    ) > 0 <==> k < buckets@.len())
                &&& forall|k: int|
                    0 <= k < buckets@.len() ==> (#[trigger] buckets@[k]).0 == CostBucket::at(
                        picked[k] as int,
                    ) && buckets@[k].1 == bucket_count(quotes@, buckets@[k].0)
            },
{
    let all: Vec<CostBucket> = vec![
        CostBucket::Arb,
        CostBucket::NearArb,
        CostBucket::Close,
        CostBucket::Efficient,
    ];
    let mut counts: Vec<u64> = Vec::new();
    let mut keys: Vec<i128> = Vec::new();
    let mut i: usize = 0;
    while i < 4
        invariant
            i <= 4,
            all@.len() == 4,
            forall|j: int| 0 <= j < 4 ==> #[trigger] all@[j] == CostBucket::at(j),
            counts@.len() == i,
            keys@.len() == i,
            forall|j: int|
                0 <= j < i ==> #[trigger] counts@[j] == bucket_count(quotes@, CostBucket::at(j)),
            forall|j: int| 0 <= j < i ==> #[trigger] keys@[j] == bucket_keys(quotes@)[j],
        decreases 4 - i,
    {
        let n: u64 = count_bucket(quotes, all[i]);
        counts.push(n);
        keys.push(-(n as i128));
        i += 1;
    }
    assert(keys@ =~= bucket_keys(quotes@));
    let picked: Vec<usize> = lowest(&keys, 4);
    let mut buckets: Vec<(CostBucket, u64)> = Vec::new();
    let mut k: usize = 0;
    while k < 4 && counts[picked[k]] > 0
        invariant
            k <= 4,
            all@.len() == 4,
            counts@.len() == 4,
            forall|j: int| 0 <= j < 4 ==> #[trigger] all@[j] == CostBucket::at(j),
            forall|j: int|
                0 <= j < 4 ==> #[trigger] counts@[j] == bucket_count(quotes@, CostBucket::at(j)),
            keys@ == bucket_keys(quotes@),
            are_lowest(keys@, picked@, 4),
            buckets@.len() == k,
            forall|j: int|
                0 <= j < k ==> (#[trigger] buckets@[j]).0 == CostBucket::at(picked@[j] as int)
                    && buckets@[j].1 == bucket_count(quotes@, buckets@[j].0) && buckets@[j].1 > 0,
        decreases 4 - k,
    {
        assert(0 <= picked@[k as int] < 4);
        buckets.push((all[picked[k]], counts[picked[k]]));
        k += 1;
    }
    assert forall|j: int| 0 <= j < 4 implies (bucket_count(
        quotes@,
        CostBucket::at((#[trigger] picked@[j]) as int),
    ) > 0 <==> j < buckets@.len()) by {
        assert(0 <= picked@[j] < 4);
        if j < k {
            assert(buckets@[j].1 > 0);
        } else {
            assert(counts@[picked@[k as int] as int] == 0);
            assert(keys@[picked@[k as int] as int] == 0);
            if j > k {
                assert(crate::ranking::precedes(keys@, picked@[k as int] as int, picked@[j] as int));
            }
            assert(counts@[picked@[j] as int] == bucket_count(
                quotes@,
                CostBucket::at(picked@[j] as int),
            ));
            assert(keys@[picked@[j] as int] == -bucket_count(
                quotes@,
                CostBucket::at(picked@[j] as int),
            ));
        }
    }
    buckets
}

/// Every quote with both prices falls into exactly one bucket.
pub proof fn buckets_partition_the_quotes(quotes: Seq<KalshiQuote>)
    ensures
        bucket_count(quotes, CostBucket::Arb) + bucket_count(quotes, CostBucket::NearArb)
            + bucket_count(quotes, CostBucket::Close) + bucket_count(
            quotes,
            CostBucket::Efficient,
        ) == priced(quotes),
    decreases quotes.len(),
{
    if quotes.len() > 0 {
        buckets_partition_the_quotes(quotes.drop_last());
    }
}

/// How many quotes have both prices.
pub open spec fn priced(quotes: Seq<KalshiQuote>) -> nat
    decreases quotes.len(),
{
    if quotes.len() == 0 {
        0
    } else {
        priced(quotes.drop_last()) + if quotes.last().cost() is Some {
            1nat
        } else {
            0nat
        }
    }
}

/// How many different moments there are.
pub fn count_distinct(timestamps: &Vec<i64>) -> (n: usize)
    ensures
        n == timestamps@.to_set().len(),
{
    let mut seen: HashSet<i64> = HashSet::new();
    let mut i: usize = 0;
    assert(seen@ =~= timestamps@.take(0).to_set());
    while i < timestamps.len()
        invariant
            i <= timestamps@.len(),
            seen@ == timestamps@.take(i as int).to_set(),
        decreases timestamps@.len() - i,
    {
        seen.insert(timestamps[i]);
        proof {
            let before = timestamps@.take(i as int);
            let after = timestamps@.take(i + 1);
            assert(after =~= before.push(timestamps@[i as int]));
            assert(after.to_set() =~= before.to_set().insert(timestamps@[i as int])) by {
                assert forall|x: i64|
                    after.to_set().contains(x) <==> before.to_set().insert(
                        timestamps@[i as int],
                    ).contains(x) by {
                    if before.contains(x) {
                        let k = choose|k: int| 0 <= k < before.len() && before[k] == x;
                        assert(after[k] == x);
                    }
                    if x == timestamps@[i as int] {
                        assert(after[i as int] == x);
                    }
                    if after.contains(x) {
                        let k = choose|k: int| 0 <= k < after.len() && after[k] == x;
                        if k < i {
                            assert(before[k] == x);
                        }
                    }
                }
            }
        }
        i += 1;
    }
    assert(timestamps@.take(i as int) =~= timestamps@);
    seen.len()
}

} // verus!
