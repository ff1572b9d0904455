//! An election whose server counts votes without ever being able to read them:
//! ballots are encrypted with fully homomorphic encryption (`tfhe`), the server
//! adds up ciphertexts with the public server key, and only the holder of the
//! client key can decrypt the totals.
pub mod api;
pub mod client;
pub mod election;
pub mod errors;
pub mod fhe;
pub mod io;
pub mod keys;
pub mod routes;
pub mod server;
pub mod tally;
pub mod text;
