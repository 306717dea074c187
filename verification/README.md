# shopping_apis

Client libraries for New Zealand shopping storefronts -- Farmers, Mitre 10,
Woolworths, Kmart and Foodstuffs' Club Plus -- written in Verus, with what each
client computes stated in contracts and proved.

None of the storefronts has a public API. What a client does is mostly
deciding: which URL to ask for, which cookies and tokens to keep, whether an
answer is a refusal, a lapse or a challenge, and what the text of an answer
says. Those decisions are the library. Sending the requests, the credential
store and the files are the caller's.

## Layout

- `src/` -- the verified library.
  - `text`, `json`, `ordered`: characters, decoded JSON, and text in
    `String` order with an ordered map kept in it (a cookie jar).
  - `net_kit`: tokens and their expiry, the credential store's names, what a
    process remembers of it, and where an unattended sign-in gets a password.
  - `farmers`: endpoints, the session and its warm-up, search URLs, the
    records the search and catalogue answer with, the HTML fragments read for
    stock, the basket, orders and saved lists, and the client's decisions
    between requests.
  - `mitre10`: endpoints, the OAuth sign-in, the session, search queries,
    the category tree, product pages, grid rows, shops, carts, orders and the
    saved list, and the client's decisions between requests.
  - `wwnz`: how Woolworths searches are asked for and paged, and what a call
    to its GraphQL API comes to -- a lapsed session, a `200` whose `errors`
    say nobody is signed in, the operation's own errors, or its `data`.
  - `kmart`: what each GraphQL answer comes to (a session not admitted, a
    bot challenge, a rate limit, an expired session, a cart changed under
    the write, the operation's own error, or its data); the gateway's carts,
    wishlists, stock, stores, postcodes and customer as a shopper is shown
    them; and how a token is renewed, cheapest source first.
  - `fsnz`: the Club Plus login as it is filed.
- `tests/` -- tests on concrete values for each module.
- `app/` -- what the library leaves to its caller: the credential store and
  files, running a password command, decoding JSON text into the library's
  records, and the amounts, ratings, counts and coordinates on records,
  which are floating point.
