# binance_hft_bot

An altcoin trading bot for Binance USDT-margined perpetual futures, with an
offline CSV backtest and a terminal dashboard over its SQLite trade log.

`src/` is a library verified with Verus. It holds the parts of the bot that
do not rest on floating point: which symbols are traded, how their order-size
filters are read, the exact text and HMAC-SHA256 signature of every REST
request, decimal formatting and parsing of integers, the bounded rolling
windows behind the volume average and ATR, candle-stream routing and
subscription batches, the decision order of the entry and stop rules, state
recovery, the backtest's day and exit-reason bookkeeping, and the dashboard's
cell texts.

`app/` is the program around it: configuration from the environment, HTTP and
WebSocket I/O, SQLite, the floating-point indicators, prices and PnL, the
backtest simulation, and the ratatui dashboard (`--dashboard`).

`tests/` runs the library on concrete inputs.
