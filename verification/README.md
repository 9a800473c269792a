# rustcrawl

A polite, embeddable web crawler, verified with [Verus](https://github.com/verus-lang/verus).

* `src/` is the library: URL normalization, the frontier, scope filtering,
  `robots.txt` rules, HTML and sitemap reading, retry rules, the engine's
  decisions, and the command-line tool's settings, job history and dashboard.
  Every function carries a contract that Verus proves. What is taken on trust are
  the calls into other crates; each stands behind a small declaration whose
  comment says what is claimed of it.
* `app/` is the program around the library: requests, sleeps, files, the
  terminal.
* `tests/` runs the library, with the other crates linked in.

## How a crawl works

A worker asks the engine for its next step (`Engine::next_step`). The frontier
answers with a task of a host that may be contacted now, with how long to wait,
or with the news that the crawl is over. For a task, `worker::advance` says what
to do after each thing that happens: ask for `robots.txt`, fetch the page, hand
the page or the failure to the sink. Links in scope go back into the frontier,
which accepts every URL once.

## What is proved of a crawl as a whole

`history` speaks of any list of things done to an engine, in any order that its
workers may come to:

* No URL is handed out twice.
* Requests to one host are at least its delay apart, which is at least the
  configured one, and a delay is only ever raised.
* No task beyond the depth limit is handed out, and the page budget is kept.
* Every task is for a seed or for a URL in scope.
* A host that has to wait does not hold up another.
* A crawl that is neither stopped nor out of budget ends only when everything it
  discovered was handed out and handed back.

Further, a page is fetched only where the rules of its origin allow it
(`worker`), a stopping or paused crawl hands out no work (`engine`), and retries
are bounded, so that no server can stall a fetch (`fetcher`).
