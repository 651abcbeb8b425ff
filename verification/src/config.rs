//! The settings of the program.

use vstd::prelude::*;
use vstd::string::*;
use vstd::utf8::encode_utf8;

verus! {

/// The settings of the program.
#[derive(Clone, Debug)]
pub struct Config {
    pub access_token: String,
    pub include_adult: bool,
    pub enable_cache: bool,
    pub load_on_startup: bool,
    pub save_on_exit: bool,
    pub autosave: bool,
    pub browser_name: String,
}

/// What stands in the place of the access token until the user enters one.
pub const ACCESS_TOKEN_HINT: &'static str = "<Replace this with your TMDB access token>";

/// The browser that opens links unless the user names another.
pub const DEFAULT_BROWSER: &'static str = "firefox";

/// The number of bytes of a read access token.
pub const ACCESS_TOKEN_LENGTH: usize = 211;

/// The byte of the dot that separates the three parts of an access token.
pub const DOT: u8 = 0x2e;

/// How often `byte` occurs among the first `upto` of the bytes.
pub open spec fn count_byte(bytes: Seq<u8>, byte: u8, upto: nat) -> nat
    decreases upto,
{
    if upto == 0 {
        0
    } else {
        let earlier = count_byte(bytes, byte, (upto - 1) as nat);
        if bytes[upto - 1] == byte {
            earlier + 1
        } else {
            earlier
        }
    }
}

/// Whether the bytes have the shape of a read access token: 211 bytes,
/// two dots among them.
pub open spec fn is_token_shaped(bytes: Seq<u8>) -> bool {
    bytes.len() == ACCESS_TOKEN_LENGTH && count_byte(bytes, DOT, bytes.len()) == 2
}

impl Default for Config {
    fn default() -> (config: Config)
        ensures
            config.access_token@ == ACCESS_TOKEN_HINT@,
            !config.include_adult,
            !config.enable_cache,
            config.load_on_startup,
            config.save_on_exit,
            !config.autosave,
            config.browser_name@ == DEFAULT_BROWSER@,
    {
        Config {
            access_token: String::from_str(ACCESS_TOKEN_HINT),
            include_adult: false,
            enable_cache: false,
            load_on_startup: true,
            save_on_exit: true,
            autosave: false,
            browser_name: String::from_str(DEFAULT_BROWSER),
        }
    }
}

impl Config {
    /// Whether the access token has the shape of a read access token.
    pub fn validate_access_token(&self) -> (valid: bool)
        ensures
            valid == is_token_shaped(encode_utf8(self.access_token@)),
    {
        let bytes = self.access_token.as_str().as_bytes();
        if bytes.len() != ACCESS_TOKEN_LENGTH {
            return false;
        }
        let mut dots: usize = 0;
        let mut i: usize = 0;
        while i < bytes.len()
            invariant
                i <= bytes@.len(),
                bytes@.len() == ACCESS_TOKEN_LENGTH,
                dots == count_byte(bytes@, DOT, i as nat),
                dots <= i,
            decreases bytes@.len() - i,
        {
            if bytes[i] == DOT {
                dots += 1;
            }
            i += 1;
        }
        dots == 2
    }
}

} // verus!
