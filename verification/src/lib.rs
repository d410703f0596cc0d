pub mod arithmetic;
pub mod elliptic;
pub mod hash_sha256;
pub mod secp256_k1;
