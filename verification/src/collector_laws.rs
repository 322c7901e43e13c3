//! What the collector does, said of the quotes and texts themselves: which quotes fall
//! where, which come first, and what is read out of a list of prices.

use crate::collector::{
    all_quotes, any_quote, are_cheapest, bucket_count, bucket_keys, comma_parts,
    comma_parts_hold_no_comma, cost_key, cost_keys, gamma_url_parts, is_white,
    joined_values_read_back, kalshi_url_parts, listed_prices, market_quotes, near_arb_at, priced,
    quoted, trimmed, without_back, without_front, BestQuote, CostBucket, GammaEvent,
    GammaMarket, KalshiQuote, Margin, NearArb, Wanted, BEST_QUOTE_COUNT, NEAR_ARB_COUNT,
};
use crate::counting::{lemma_filter_none, lemma_filter_step};
use crate::ranking::{all_are_picked, among, are_lowest, precedes};
use crate::text::{concatenated, joined};
use vstd::prelude::*;

verus! {

/// Whether both sides of a quote have a price, and cost at least `from` and less than `to`
/// together.
pub open spec fn costs_within(from: Option<int>, to: Option<int>) -> spec_fn(KalshiQuote) -> bool {
    |quote: KalshiQuote|
        {
            &&& quote.yes_ask is Some
            &&& quote.no_ask is Some
            &&& from is Some ==> from->0 <= quote.yes_ask->0 + quote.no_ask->0
            &&& to is Some ==> quote.yes_ask->0 + quote.no_ask->0 < to->0
        }
}

/// Quotes are counted by what both sides cost together: below 100, from 100 below 102,
/// from 102 below 105, and from 105 on.
pub proof fn buckets_go_by_the_cost(quotes: Seq<KalshiQuote>)
    ensures
        bucket_count(quotes, CostBucket::Arb) == quotes.filter(
            costs_within(None, Some(100)),
        ).len(),
        bucket_count(quotes, CostBucket::NearArb) == quotes.filter(
            costs_within(Some(100), Some(102)),
        ).len(),
        bucket_count(quotes, CostBucket::Close) == quotes.filter(
            costs_within(Some(102), Some(105)),
        ).len(),
        bucket_count(quotes, CostBucket::Efficient) == quotes.filter(
            costs_within(Some(105), None),
        ).len(),
        priced(quotes) == quotes.filter(costs_within(None, None)).len(),
    decreases quotes.len(),
{
    if quotes.len() == 0 {
        lemma_filter_none(quotes, costs_within(None, Some(100)));
        lemma_filter_none(quotes, costs_within(Some(100), Some(102)));
        lemma_filter_none(quotes, costs_within(Some(102), Some(105)));
        lemma_filter_none(quotes, costs_within(Some(105), None));
        lemma_filter_none(quotes, costs_within(None, None));
    } else {
        lemma_filter_step(quotes, costs_within(None, Some(100)));
        lemma_filter_step(quotes, costs_within(Some(100), Some(102)));
        lemma_filter_step(quotes, costs_within(Some(102), Some(105)));
        lemma_filter_step(quotes, costs_within(Some(105), None));
        lemma_filter_step(quotes, costs_within(None, None));
        buckets_go_by_the_cost(quotes.drop_last());
    }
}

/// A further quote with both prices adds one to the bucket that its cost falls into, and
/// to no other; a further quote without them adds to none.
pub proof fn a_quote_adds_to_its_own_bucket(
    quotes: Seq<KalshiQuote>,
    quote: KalshiQuote,
    bucket: CostBucket,
)
    ensures
        ({
            let before: nat = bucket_count(quotes, bucket);
            let after: nat = bucket_count(quotes.push(quote), bucket);
            match (quote.yes_ask, quote.no_ask) {
                (Some(yes), Some(no)) => {
                    &&& yes + no < 100 ==> after == if bucket is Arb {
                        before + 1
                    } else {
                        before
                    }
                    &&& 100 <= yes + no < 102 ==> after == if bucket is NearArb {
                        before + 1
                    } else {
                        before
                    }
                    &&& 102 <= yes + no < 105 ==> after == if bucket is Close {
                        before + 1
                    } else {
                        before
                    }
                    &&& 105 <= yes + no ==> after == if bucket is Efficient {
                        before + 1
                    } else {
                        before
                    }
                },
                _ => after == before,
            }
        }),
{
    assert(quotes.push(quote).drop_last() =~= quotes);
}

/// Each bucket is shown with the bounds of the costs that fall into it.
pub proof fn buckets_are_shown_with_their_bounds()
    ensures
        CostBucket::Arb.title() == "Arb (<100)"@,
        CostBucket::NearArb.title() == "Near-arb (100-102)"@,
        CostBucket::Close.title() == "Close (102-105)"@,
        CostBucket::Efficient.title() == "Efficient (>105)"@,
{
}

/// No more quotes are counted than there are.
proof fn lemma_bucket_bound(quotes: Seq<KalshiQuote>, bucket: CostBucket)
    ensures
        bucket_count(quotes, bucket) <= quotes.len(),
    decreases quotes.len(),
{
    if quotes.len() > 0 {
        lemma_bucket_bound(quotes.drop_last(), bucket);
    }
}

/// The fullest buckets come first, and each of the four comes once.
pub proof fn fullest_buckets_come_first(
    quotes: Seq<KalshiQuote>,
    picked: Seq<usize>,
    i: int,
    j: int,
    bucket: CostBucket,
)
    requires
        are_lowest(bucket_keys(quotes), picked, 4),
        quotes.len() <= u64::MAX,
        0 <= i < j < 4,
    ensures
        picked.len() == 4,
        bucket_count(quotes, CostBucket::at(picked[i] as int)) >= bucket_count(
            quotes,
            CostBucket::at(picked[j] as int),
        ),
        CostBucket::at(picked[i] as int) != CostBucket::at(picked[j] as int),
        exists|k: int|
            0 <= k < 4 && #[trigger] CostBucket::at(picked[k] as int) == bucket,
{
    let keys = bucket_keys(quotes);
    assert(precedes(keys, picked[i] as int, picked[j] as int));
    lemma_bucket_bound(quotes, CostBucket::at(picked[i] as int));
    lemma_bucket_bound(quotes, CostBucket::at(picked[j] as int));
    assert(keys[picked[i] as int] == -bucket_count(quotes, CostBucket::at(picked[i] as int)));
    assert(keys[picked[j] as int] == -bucket_count(quotes, CostBucket::at(picked[j] as int)));
    let place: int = match bucket {
        CostBucket::Arb => 0,
        CostBucket::NearArb => 1,
        CostBucket::Close => 2,
        CostBucket::Efficient => 3,
    };
    assert(CostBucket::at(place) == bucket);
    all_are_picked(keys, picked, 4, place);
    let k = choose|k: int| 0 <= k < picked.len() && #[trigger] picked[k] == place;
    assert(CostBucket::at(picked[k] as int) == bucket);
}

/// Whether a quote has both prices, and costs less than a bound at a moment, where these
/// are asked for.
pub open spec fn meets(quote: KalshiQuote, wanted: Wanted) -> bool {
    &&& quote.yes_ask is Some
    &&& quote.no_ask is Some
    &&& match wanted.at {
        Some(moment) => quote.timestamp == moment,
        None => true,
    }
    &&& match wanted.below {
        Some(bound) => quote.yes_ask->0 + quote.no_ask->0 < bound,
        None => true,
    }
}

/// The cheapest quotes that meet what is wanted are chosen, the cheapest first: each meets
/// it, none that does and is chosen later or not at all is cheaper, and none is left out
/// while fewer are chosen than asked for.
pub proof fn the_cheapest_are_chosen(
    quotes: Seq<KalshiQuote>,
    wanted: Wanted,
    limit: nat,
    chosen: Seq<usize>,
    i: int,
    x: int,
)
    requires
        are_cheapest(quotes, wanted, limit, chosen),
        0 <= x < quotes.len(),
        meets(quotes[x], wanted),
        forall|j: int| 0 <= j <= i && j < chosen.len() ==> #[trigger] chosen[j] != x,
        0 <= i,
    ensures
        chosen.len() <= limit,
        i < chosen.len() ==> {
            let quote = quotes[chosen[i] as int];
            &&& chosen[i] < quotes.len()
            &&& meets(quote, wanted)
            &&& quote.yes_ask->0 + quote.no_ask->0 <= quotes[x].yes_ask->0 + quotes[x].no_ask->0
        },
        i >= chosen.len() ==> chosen.len() == limit,
{
    let keys = cost_keys(quotes, wanted);
    let picked = choose|picked: Seq<usize>|
        {
            &&& #[trigger] are_lowest(keys, picked, limit)
            &&& chosen.len() <= picked.len()
            &&& forall|k: int|
                0 <= k < picked.len() ==> (quotes[(#[trigger] picked[k]) as int].eligible(wanted)
                    <==> k < chosen.len())
            &&& forall|k: int| 0 <= k < chosen.len() ==> #[trigger] chosen[k] == picked[k]
        };
    assert(quotes[x].eligible(wanted));
    assert(keys[x] == cost_key(quotes[x], wanted));
    if i < chosen.len() {
        assert(chosen[i] == picked[i]);
        assert(quotes[picked[i] as int].eligible(wanted));
        assert(keys[picked[i] as int] == cost_key(quotes[picked[i] as int], wanted));
        if among(picked, x) {
            let k = choose|k: int| 0 <= k < picked.len() && #[trigger] picked[k] == x;
            assert(quotes[picked[k] as int].eligible(wanted));
            assert(chosen[k] == picked[k]);
            assert(k > i);
            assert(precedes(keys, picked[i] as int, picked[k] as int));
        } else {
            assert(precedes(keys, picked[i] as int, x));
        }
    } else {
        if among(picked, x) {
            let k = choose|k: int| 0 <= k < picked.len() && #[trigger] picked[k] == x;
            assert(quotes[picked[k] as int].eligible(wanted));
            assert(chosen[k] == picked[k]);
        }
        if chosen.len() < picked.len() {
            let k = chosen.len() as int;
            assert(!quotes[picked[k] as int].eligible(wanted));
            assert(keys[picked[k] as int] == cost_key(quotes[picked[k] as int], wanted));
            assert(precedes(keys, picked[k] as int, x));
        }
        if picked.len() < limit {
            all_are_picked(keys, picked, limit, x);
        }
    }
}

/// Every chosen quote meets what is wanted.
pub proof fn the_chosen_meet_what_is_wanted(
    quotes: Seq<KalshiQuote>,
    wanted: Wanted,
    limit: nat,
    chosen: Seq<usize>,
    i: int,
)
    requires
        are_cheapest(quotes, wanted, limit, chosen),
        0 <= i < chosen.len(),
    ensures
        chosen[i] < quotes.len(),
        meets(quotes[chosen[i] as int], wanted),
        chosen.len() <= limit,
        forall|j: int| 0 <= j < i ==> #[trigger] chosen[j] != chosen[i],
{
    let keys = cost_keys(quotes, wanted);
    let picked = choose|picked: Seq<usize>|
        {
            &&& #[trigger] are_lowest(keys, picked, limit)
            &&& chosen.len() <= picked.len()
            &&& forall|k: int|
                0 <= k < picked.len() ==> (quotes[(#[trigger] picked[k]) as int].eligible(wanted)
                    <==> k < chosen.len())
            &&& forall|k: int| 0 <= k < chosen.len() ==> #[trigger] chosen[k] == picked[k]
        };
    assert(quotes[picked[i] as int].eligible(wanted));
    assert forall|j: int| 0 <= j < i implies #[trigger] chosen[j] != chosen[i] by {
        assert(precedes(keys, picked[j] as int, picked[i] as int));
    }
}

/// Close to an arbitrage is what was collected at the moment and costs less than 105; ten
/// such quotes are shown. Of the best quotes of all moments twenty are shown, whatever
/// they cost.
pub proof fn what_is_shown_of_the_quotes(quote: KalshiQuote, timestamp: i64)
    ensures
        meets(quote, near_arb_at(timestamp)) <==> quote.yes_ask is Some && quote.no_ask is Some
            && quote.timestamp == timestamp && quote.yes_ask->0 + quote.no_ask->0 < 105,
        meets(quote, any_quote()) <==> quote.yes_ask is Some && quote.no_ask is Some,
        NEAR_ARB_COUNT == 10,
        BEST_QUOTE_COUNT == 20,
{
}

/// White space is the characters of these code points.
pub proof fn white_space_is_these_code_points(c: char)
    ensures
        is_white(c) <==> seq![
            0x9,
            0xA,
            0xB,
            0xC,
            0xD,
            0x20,
            0x85,
            0xA0,
            0x1680,
            0x2000,
            0x2001,
            0x2002,
            0x2003,
            0x2004,
            0x2005,
            0x2006,
            0x2007,
            0x2008,
            0x2009,
            0x200A,
            0x2028,
            0x2029,
            0x202F,
            0x205F,
            0x3000int,
        ].contains(c as int),
{
    let all = seq![
        0x9,
        0xA,
        0xB,
        0xC,
        0xD,
        0x20,
        0x85,
        0xA0,
        0x1680,
        0x2000,
        0x2001,
        0x2002,
        0x2003,
        0x2004,
        0x2005,
        0x2006,
        0x2007,
        0x2008,
        0x2009,
        0x200A,
        0x2028,
        0x2029,
        0x202F,
        0x205F,
        0x3000int,
    ];
    let n = c as int;
    if is_white(c) {
        if n <= 0xD {
            assert(all[n - 0x9] == n);
        } else if n == 0x20 {
            assert(all[5] == n);
        } else if n == 0x85 {
            assert(all[6] == n);
        } else if n == 0xA0 {
            assert(all[7] == n);
        } else if n == 0x1680 {
            assert(all[8] == n);
        } else if n <= 0x200A {
            assert(all[n - 0x2000 + 9] == n);
        } else if n == 0x2028 {
            assert(all[20] == n);
        } else if n == 0x2029 {
            assert(all[21] == n);
        } else if n == 0x202F {
            assert(all[22] == n);
        } else if n == 0x205F {
            assert(all[23] == n);
        } else {
            assert(all[24] == n);
        }
    }
}

/// What each margin strips: square brackets, white space, double quotes.
pub proof fn margins_strip_their_characters(c: char)
    ensures
        Margin::Brackets.holds(c) <==> c == '[' || c == ']',
        Margin::Whitespace.holds(c) <==> is_white(c),
        Margin::Quotes.holds(c) <==> c == '"',
{
}

/// Cutting off the front takes only the margin.
proof fn lemma_front_taken(s: Seq<char>, margin: Margin) -> (front: Seq<char>)
    ensures
        s == front + without_front(s, margin),
        forall|i: int| 0 <= i < front.len() ==> margin.holds(#[trigger] front[i]),
        without_front(s, margin).len() > 0 ==> !margin.holds(without_front(s, margin).first()),
    decreases s.len(),
{
    if s.len() > 0 && margin.holds(s.first()) {
        let rest = lemma_front_taken(s.drop_first(), margin);
        let front = seq![s.first()] + rest;
        assert(s =~= seq![s.first()] + s.drop_first());
        assert(s =~= front + without_front(s, margin));
        front
    } else {
        assert(s =~= Seq::<char>::empty() + s);
        Seq::empty()
    }
}

/// Cutting off the end takes only the margin.
proof fn lemma_back_taken(s: Seq<char>, margin: Margin) -> (back: Seq<char>)
    ensures
        s == without_back(s, margin) + back,
        forall|i: int| 0 <= i < back.len() ==> margin.holds(#[trigger] back[i]),
        without_back(s, margin).len() > 0 ==> !margin.holds(without_back(s, margin).last()),
    decreases s.len(),
{
    if s.len() > 0 && margin.holds(s.last()) {
        let rest = lemma_back_taken(s.drop_last(), margin);
        let back = rest.push(s.last());
        assert(s =~= s.drop_last().push(s.last()));
        assert(s =~= without_back(s, margin) + back);
        back
    } else {
        assert(s =~= s + Seq::<char>::empty());
        Seq::empty()
    }
}

/// Whether `inner` is `s` without `front` and `back`, which hold nothing but the margin,
/// and has no margin itself.
pub open spec fn stripped(
    s: Seq<char>,
    inner: Seq<char>,
    front: Seq<char>,
    back: Seq<char>,
    margin: Margin,
) -> bool {
    &&& s == front + inner + back
    &&& forall|i: int| 0 <= i < front.len() ==> margin.holds(#[trigger] front[i])
    &&& forall|i: int| 0 <= i < back.len() ==> margin.holds(#[trigger] back[i])
    &&& inner.len() > 0 ==> !margin.holds(inner.first()) && !margin.holds(inner.last())
}

/// Trimming takes the whole margin from both sides, and nothing else.
pub proof fn trimming_takes_the_margins_alone(s: Seq<char>, margin: Margin)
    ensures
        exists|front: Seq<char>, back: Seq<char>| #[trigger]
            stripped(s, trimmed(s, margin), front, back, margin),
{
    let front = lemma_front_taken(s, margin);
    let middle = without_front(s, margin);
    let back = lemma_back_taken(middle, margin);
    let inner = trimmed(s, margin);
    assert(s =~= front + inner + back);
    if inner.len() > 0 {
        assert(middle.first() == inner.first());
    }
    assert(stripped(s, inner, front, back, margin));
}

/// There is only one way to take the margins from a text that is not all margin.
proof fn lemma_stripped_once(
    s: Seq<char>,
    inner: Seq<char>,
    front: Seq<char>,
    back: Seq<char>,
    margin: Margin,
)
    requires
        stripped(s, inner, front, back, margin),
        inner.len() > 0,
    ensures
        trimmed(s, margin) == inner,
{
    trimming_takes_the_margins_alone(s, margin);
    let (f, b) = choose|f: Seq<char>, b: Seq<char>| #[trigger]
        stripped(s, trimmed(s, margin), f, b, margin);
    let other = trimmed(s, margin);
    assert(s[front.len() as int] == inner.first());
    assert(s[front.len() + inner.len() - 1] == inner.last());
    if other.len() == 0 {
        let k = front.len() as int;
        if k < f.len() {
            assert(f[k] == s[k]);
        } else {
            assert(b[k - f.len()] == s[k]);
        }
    } else {
        assert(s[f.len() as int] == other.first());
        assert(s[f.len() + other.len() - 1] == other.last());
        if f.len() > front.len() {
            assert(f[front.len() as int] == s[front.len() as int]);
        }
        if f.len() < front.len() {
            assert(front[f.len() as int] == s[f.len() as int]);
        }
        if b.len() > back.len() {
            let k = front.len() + inner.len() - 1;
            assert(b[k - f.len() - other.len()] == s[k]);
        }
        if b.len() < back.len() {
            let k = f.len() + other.len() - 1;
            assert(back[k - front.len() - inner.len()] == s[k]);
        }
        assert(other =~= s.subrange(f.len() as int, s.len() - b.len()));
        assert(inner =~= s.subrange(front.len() as int, s.len() - back.len()));
    }
}

/// The parts between the commas of a text, with commas between them, are the text.
pub proof fn comma_parts_join_back(s: Seq<char>)
    ensures
        joined(comma_parts(s), ","@) == s,
    decreases s.len(),
{
    reveal_strlit(",");
    if s.len() == 0 {
        assert(comma_parts(s) =~= seq![Seq::<char>::empty()]);
        assert(s =~= Seq::<char>::empty());
    } else {
        let shorter = s.drop_last();
        let before = comma_parts(shorter);
        comma_parts_join_back(shorter);
        comma_parts_hold_no_comma(shorter);
        if s.last() == ',' {
            assert(comma_parts(s).drop_last() =~= before);
            assert(joined(comma_parts(s), ","@) =~= shorter + ","@);
            assert(s =~= shorter + ","@);
        } else {
            assert(comma_parts(s).drop_last() =~= before.drop_last());
            assert(joined(comma_parts(s), ","@) =~= shorter.push(s.last()));
            assert(s =~= shorter.push(s.last()));
        }
    }
}

/// A price in a list may have white space around its quotes, which is no part of it.
pub proof fn spaced_price_reads_back(front: Seq<char>, price: Seq<char>, back: Seq<char>)
    requires
        forall|i: int| 0 <= i < front.len() ==> is_white(#[trigger] front[i]),
        forall|i: int| 0 <= i < back.len() ==> is_white(#[trigger] back[i]),
        price.len() > 0,
        !price.contains(','),
        !price.contains('"'),
    ensures
        listed_prices(seq!['['] + (front + quoted(price) + back) + seq![']']) == seq![price],
{
    let part = front + quoted(price) + back;
    let list = seq!['['] + part + seq![']'];
    assert(quoted(price).len() > 0);
    let spaced = front + quoted(price);
    assert(part.len() > 0);
    assert(part.first() != '[' && part.first() != ']') by {
        if front.len() > 0 {
            assert(part.first() == front[0]);
            assert(is_white(front[0]));
        } else {
            assert(part.first() == '"');
        }
    }
    assert(part.last() != '[' && part.last() != ']') by {
        if back.len() > 0 {
            assert(part.last() == back[back.len() - 1]);
            assert(is_white(back[back.len() - 1]));
        } else {
            assert(part.last() == '"');
        }
    }
    assert(stripped(list, part, seq!['['], seq![']'], Margin::Brackets));
    lemma_stripped_once(list, part, seq!['['], seq![']'], Margin::Brackets);
    assert(!part.contains(',')) by {
        if part.contains(',') {
            let k = choose|k: int| 0 <= k < part.len() && part[k] == ',';
            if k < front.len() {
                assert(front[k] == ',');
            } else if k < spaced.len() {
                assert(quoted(price)[k - front.len()] == ',');
                assert(price[k - front.len() - 1] == ',');
            } else {
                assert(back[k - spaced.len()] == ',');
            }
        }
    }
    let one = seq![part];
    joined_values_read_back(one);
    assert(joined(one, ","@) == part);
    assert(quoted(price).first() == '"' && quoted(price).last() == '"');
    assert(stripped(part, quoted(price), front, back, Margin::Whitespace));
    lemma_stripped_once(part, quoted(price), front, back, Margin::Whitespace);
    assert(price.contains(price.first()) && price.contains(price.last()));
    assert(stripped(quoted(price), price, seq!['"'], seq!['"'], Margin::Quotes));
    lemma_stripped_once(quoted(price), price, seq!['"'], seq!['"'], Margin::Quotes);
    assert(comma_parts(trimmed(list, Margin::Brackets)) == one);
    assert(listed_prices(list) =~= seq![price]);
}

/// A market that lists at least two prices gives one quote: the slug and the title of its
/// event, empty where there is none, with the first price for yes and the second for no.
/// Any other market gives none.
pub proof fn a_market_gives_its_first_two_prices(event: GammaEvent, market: GammaMarket)
    ensures
        ({
            let given = market_quotes(event, seq![market]);
            match market.outcome_prices {
                Some(list) => if listed_prices(list@).len() < 2 {
                    given.len() == 0
                } else {
                    &&& given.len() == 1
                    &&& given[0].yes_price == listed_prices(list@)[0]
                    &&& given[0].no_price == listed_prices(list@)[1]
                    &&& match event.slug {
                        Some(slug) => given[0].slug == slug@,
                        None => given[0].slug.len() == 0,
                    }
                    &&& match event.title {
                        Some(title) => given[0].title == title@,
                        None => given[0].title.len() == 0,
                    }
                },
                None => given.len() == 0,
            }
        }),
{
    reveal_with_fuel(market_quotes, 2);
    assert(seq![market].drop_last() =~= Seq::<GammaMarket>::empty());
}

/// The quotes of further markets follow those of the markets before.
pub proof fn markets_are_quoted_in_order(
    event: GammaEvent,
    first: Seq<GammaMarket>,
    second: Seq<GammaMarket>,
)
    ensures
        market_quotes(event, first + second) == market_quotes(event, first) + market_quotes(
            event,
            second,
        ),
    decreases second.len(),
{
    if second.len() == 0 {
        assert(first + second =~= first);
        assert(market_quotes(event, first) + market_quotes(event, second) =~= market_quotes(
            event,
            first,
        ));
    } else {
        markets_are_quoted_in_order(event, first, second.drop_last());
        assert((first + second).drop_last() =~= first + second.drop_last());
        assert(market_quotes(event, first + second) =~= market_quotes(event, first)
            + market_quotes(event, second));
    }
}

/// The quotes of further events follow those of the events before; those of one event are
/// those of its markets.
pub proof fn events_are_quoted_in_order(
    first: Seq<GammaEvent>,
    second: Seq<GammaEvent>,
    event: GammaEvent,
)
    ensures
        all_quotes(first + second) == all_quotes(first) + all_quotes(second),
        match event.markets {
            Some(markets) => all_quotes(seq![event]) == market_quotes(event, markets@),
            None => all_quotes(seq![event]).len() == 0,
        },
    decreases second.len(),
{
    reveal_with_fuel(all_quotes, 2);
    assert(seq![event].drop_last() =~= Seq::<GammaEvent>::empty());
    assert(all_quotes(seq![event]) =~= crate::collector::event_quotes(event));
    if second.len() == 0 {
        assert(first + second =~= first);
        assert(all_quotes(first) + all_quotes(second) =~= all_quotes(first));
    } else {
        events_are_quoted_in_order(first, second.drop_last(), event);
        assert((first + second).drop_last() =~= first + second.drop_last());
        assert(all_quotes(first + second) =~= all_quotes(first) + all_quotes(second));
    }
}

/// The markets of a series are asked for by its name, a hundred at a time; the events by
/// what is open in sports.
pub proof fn addresses_ask_for_the_series(series: Seq<char>)
    ensures
        concatenated(kalshi_url_parts(series))
            == "https://api.elections.kalshi.com/trade-api/v2/markets?series_ticker="@ + series
            + "&limit=100"@,
        concatenated(gamma_url_parts())
            == "https://gamma-api.polymarket.com/events?active=true&closed=false&limit=100&tag=sports"@,
{
    reveal_strlit("https://api.elections.kalshi.com/trade-api/v2");
    reveal_strlit("/markets?series_ticker=");
    reveal_strlit("https://api.elections.kalshi.com/trade-api/v2/markets?series_ticker=");
    reveal_strlit("https://gamma-api.polymarket.com");
    reveal_strlit("/events?active=true&closed=false&limit=100&tag=sports");
    reveal_strlit(
        "https://gamma-api.polymarket.com/events?active=true&closed=false&limit=100&tag=sports",
    );
    reveal_with_fuel(concatenated, 5);
    assert("https://api.elections.kalshi.com/trade-api/v2"@ + "/markets?series_ticker="@
        =~= "https://api.elections.kalshi.com/trade-api/v2/markets?series_ticker="@);
    assert("https://gamma-api.polymarket.com"@
        + "/events?active=true&closed=false&limit=100&tag=sports"@
        =~= "https://gamma-api.polymarket.com/events?active=true&closed=false&limit=100&tag=sports"@);
    let parts = kalshi_url_parts(series);
    assert(concatenated(parts) =~= parts[0] + parts[1] + parts[2] + parts[3]);
    let address = gamma_url_parts();
    assert(concatenated(address) =~= address[0] + address[1]);
}

/// A near arbitrage shows the ticker of its quote, what both sides cost together, and a
/// profit of 98 cents less that cost.
pub proof fn near_arbs_tell_cost_and_profit(arb: NearArb, quote: KalshiQuote)
    requires
        arb.tells_of(quote),
    ensures
        arb.ticker == quote.ticker,
        quote.yes_ask is Some,
        quote.no_ask is Some,
        arb.cost == quote.yes_ask->0 + quote.no_ask->0,
        arb.profit + quote.yes_ask->0 + quote.no_ask->0 == 98,
{
}

/// A quote among the best shows its own moment, ticker and prices, and their sum.
pub proof fn best_quotes_tell_their_prices(best: BestQuote, quote: KalshiQuote)
    requires
        best.tells_of(quote),
    ensures
        best.timestamp == quote.timestamp,
        best.ticker == quote.ticker,
        quote.yes_ask is Some && quote.yes_ask->0 == best.yes_ask,
        quote.no_ask is Some && quote.no_ask->0 == best.no_ask,
        best.cost == quote.yes_ask->0 + quote.no_ask->0,
{
}

/// A cost can be told where it fits in 64 bits, and so does what a dollar leaves after it.
pub proof fn costs_fit_in_64_bits(cost: int)
    ensures
        crate::collector::cost_fits(cost) <==> -0x8000_0000_0000_0000 <= cost
            <= 0x7FFF_FFFF_FFFF_FFFF && 100 - cost <= 0x7FFF_FFFF_FFFF_FFFF,
{
}

} // verus!
