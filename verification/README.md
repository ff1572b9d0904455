# blindtally

An election whose server counts votes without ever being able to read them.
Each voter encrypts the id of a candidate with fully homomorphic encryption
(`tfhe`); the server adds the encrypted ballots up with the public server key
alone; only the holder of the client key can decrypt the totals.

## Layout

- `src/` is the verified library.
  - `fhe` declares `tfhe`'s types and states what its calls do, as relations
    where the result depends on chance or on an FFT plan picked at run time.
  - `tally` counts ballots homomorphically and proves that the counts decrypt
    to the votes whenever the run decrypts as computing on what it holds.
  - `routes` holds every decision of the HTTP server as transitions of an
    election state, with laws about any sequence of requests.
  - `io` encodes and decodes values with `bincode`; `keys`, `election`,
    `text`, `api`, `errors` hold the rest of the client's and server's logic.
- `app/` is the program around it: the command line, the HTTP server and
  client, and files.
- `tests/` runs the library with small, insecure parameters, so that each test
  takes a fraction of a second.
