# ReqWave

A desktop tool that turns a cURL command into a load test. Paste a `cURL (bash)` command as
browsers copy it; the tool fills in the URL, the method, the headers and the body, sends the
request again and again from as many workers as you like, and reports the request rate, the
latency percentiles and the status codes while it runs and when it is done. It speaks English and
Chinese.

The logic is a library written in Verus: what each function returns and changes is stated in its
contract and proved. The window, the network and the clock are ordinary Rust around it.

## Layout

`src/` is the verified library.

| Module | What it holds |
|---|---|
| `curl_parser` | a cURL command to a request |
| `draft` | a request to what the editor shows, and back |
| `error`, `i18n` | what can be wrong, and every text in both languages |
| `loadtest` | settings, plan, counters and metrics of a load test |
| `worker` | what one worker does next, and what it counts |
| `history`, `trend` | the samples of a load test, and the curves drawn from them |
| `report` | the final report, the status chart, and their labels |
| `app`, `view` | the state behind the window, what happens to it, and what is shown of it |
| `text`, `reading` | operations on Unicode text, and measured quantities |
| `outside` | the calls into other crates, with what is relied on of each |

The functions whose names begin with `law_` state what holds of the library as a whole: that a
command survives the editor, that the counts of all workers add up to the total, that the history
stays in order and within its limit.

`app/` is the program: the window (eframe), the engine that sends requests (tokio, reqwest), and
everything that computes with floating-point numbers. `tests/` runs the library on concrete values.

## Measured quantities

Rates, times and latencies are double-precision numbers. The library carries, orders and compares
them exactly, by their bit patterns, and leaves arithmetic on them to the program.
