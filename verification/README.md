# usaidwat

Answers the age-old question, "Where does a Redditor comment the most?"

`usaidwat` fetches a Redditor's account data, last comments and last posts
from the Reddit API and shows them: a log of comments or posts (optionally
filtered by subreddit, searched, and limited), a tally of comments or posts
per subreddit, a timeline of when the Redditor comments, and an AI summary of
the Redditor's comments.

## Layout

- `src/` is the library, written in Verus: every function carries a contract
  and is verified.
  - `text` — characters, strings, replacements, trimming, number formatting.
  - `markdown` — rendering Markdown to bare text (`bare`) and to terminal text
    (`terminal`), over the syntax tree of the `markdown` crate.
  - `thing`, `client` — Reddit users, comments and posts; timelines.
  - `clock` — instants, local times, ages.
  - `filter`, `count` — selecting comments and posts; tallies per subreddit.
  - `view` — how everything is shown in a terminal.
  - `pager`, `conf`, `service`, `cli` — the pager's configuration, Reddit API
    addresses, and what each command prints.
  - `ai`, `summary` — OpenAI requests and responses; the summary's input.
- `tests/` holds the tests of the library.
- `app/` is the command-line program: it reads the command line and the
  environment, makes the HTTP requests, parses JSON, and runs the pager.
