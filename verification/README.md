# playbar

A command-line client for Google Play Music ("SkyJam"): it logs in with an
RSA-encrypted password, keeps the credentials in a save file, and searches
radio stations.

`src/` is the library, verified with Verus:

- `token`: the SkyJam token, its save text (versions 0 and 1) and device ids;
  writing a token and reading the text back gives the same fields.
- `google`: the older `GoogleAuth` credentials, their login request and reply,
  and their version-0 save text.
- `credentials`: login and refresh requests and replies, and what to do with a
  save file.
- `password`: encryption of the login and password with Google's public key.
- `form`, `response`: form and query texts, and `Key=value` words of replies.
- `query`, `radio`: the search URL, the search reply, and its radio stations.
- `stream`, `player`, `wave`: stream signing, player commands, tone sampling.
- `codec`, `digest`, `bytes`, `text`: Base64, hashes, bytes and text helpers.

`app/` holds the program: terminal input, files, HTTP, JSON and the
floating-point tone samples.
