# polymarket-arbitrage-bot

An arbitrage bot for short-lived up/down markets whose decisions are verified with Verus.
In the last five minutes of a 15-minute market, the 5-minute market of the same symbol ends
at the same moment. Buying one outcome of the first and the opposite outcome of the second
for less than a dollar together gains as long as both end on the same side.

- `src/` is the verified library. It computes on plain values.
  - `decimal`: exact amounts in billionths, read from and written to text.
  - `text`: comparison, search and numerals on characters.
  - `discovery`: periods, slugs, tokens and the price that a question names.
  - `chainlink`: the price feed and the opening prices of periods.
  - `ws`: the market channel, from subscription to best prices.
  - `overlap`, `round`, `settlement`: waiting for an overlap, trading it, settling it.
  - `strategy`: what the loops of all symbols share.
  - `signals`, `pre_order`: signals, orders on both sides of hourly markets, and pre-orders.
  - `config`, `models`: settings, and what is exchanged with the market.
- `app/` is the program around it: command line, files, connections and loops.
- `tests/` runs the library on concrete values.

Amounts are exact decimals, not binary fractions: a sum of 0.1 and 0.7 is 0.8 and not below
it.
