use vstd::prelude::*;
use vstd::string::StringSliceAdditionalSpecFns;

verus! {

/// The bot's settings: its login token, command prefix, owner and the
/// credentials of the music catalogue it queries.
#[derive(Debug)]
pub struct Config {
    token: String,
    prefix: String,
    author_id: u64,
    spotify_client_id: String,
    spotify_client_secret: String,
    spotify_redirect_uri: String,
}

/// Why settings could not be built.
#[derive(Clone, Copy, Debug, PartialEq, Eq, Structural)]
pub enum ConfigError {
    /// The owner id is not a decimal number that fits in 64 bits.
    InvalidAuthorId,
}

/// Value of the decimal digits `s`.
pub open spec fn digits_value(s: Seq<u8>) -> int
    decreases s.len(),
{
    if s.len() == 0 {
        0
    } else {
        digits_value(s.drop_last()) * 10 + (s.last() - 48)
    }
}

pub open spec fn all_digits(s: Seq<u8>) -> bool {
    forall|i: int| 0 <= i < s.len() ==> 48 <= #[trigger] s[i] <= 57
}

/// An unsigned decimal number: an optional `+`, then at least one digit, with
/// a value that fits in 64 bits.
pub open spec fn decimal_u64(s: Seq<u8>) -> Option<u64> {
    let d = if s.len() > 0 && s[0] == 43 {
        s.drop_first()
    } else {
        s
    };
    if d.len() > 0 && all_digits(d) && digits_value(d) <= u64::MAX {
        Some(digits_value(d) as u64)
    } else {
        None
    }
}

proof fn lemma_digits_prefix(s: Seq<u8>, i: int)
    requires
        0 <= i <= s.len(),
        all_digits(s),
    ensures
        digits_value(s.subrange(0, i)) <= digits_value(s),
    decreases s.len(),
{
    if i == s.len() {
        assert(s.subrange(0, i) =~= s);
    } else {
        let t = s.drop_last();
        assert(all_digits(t)) by {
            assert forall|k: int| 0 <= k < t.len() implies 48 <= #[trigger] t[k] <= 57 by {
                assert(t[k] == s[k]);
            }
        }
        lemma_digits_prefix(t, i);
        assert(t.subrange(0, i) =~= s.subrange(0, i));
        lemma_digits_nonneg(t);
    }
}

proof fn lemma_digits_nonneg(s: Seq<u8>)
    requires
        all_digits(s),
    ensures
        digits_value(s) >= 0,
    decreases s.len(),
{
    if s.len() > 0 {
        let t = s.drop_last();
        assert forall|k: int| 0 <= k < t.len() implies 48 <= #[trigger] t[k] <= 57 by {
            assert(t[k] == s[k]);
        }
        lemma_digits_nonneg(t);
    }
}

/// Reads an unsigned decimal number, as `str::parse::<u64>` accepts it.
pub fn parse_decimal_u64(s: &str) -> (r: Option<u64>)
    ensures
        r == decimal_u64(s.spec_bytes()),
{
    let b = s.as_bytes();
    let start: usize = if b.len() > 0 && b[0] == 43 {
        1
    } else {
        0
    };
    let ghost d = if b@.len() > 0 && b@[0] == 43 {
        b@.drop_first()
    } else {
        b@
    };
    assert(d =~= b@.subrange(start as int, b@.len() as int));
    if start == b.len() {
        return None;
    }
    let mut value: u64 = 0;
    let mut i: usize = start;
    while i < b.len()
        invariant
            start <= i <= b@.len(),
            b@ == s.spec_bytes(),
            d == b@.subrange(start as int, b@.len() as int),
            d == (if b@.len() > 0 && b@[0] == 43 {
                b@.drop_first()
            } else {
                b@
            }),
            all_digits(d.subrange(0, i - start)),
            value == digits_value(d.subrange(0, i - start)),
        decreases b@.len() - i,
    {
        let c = b[i];
        let ghost next = d.subrange(0, i + 1 - start);
        assert(next.drop_last() =~= d.subrange(0, i - start));
        assert(next.last() == c);
        if c < 48 || c > 57 {
            assert(!(48 <= d[i - start] <= 57));
            assert(!all_digits(d));
            assert(decimal_u64(b@) is None);
            return None;
        }
        let digit = (c - 48) as u64;
        if value > (u64::MAX - digit) / 10 {
            proof {
                assert(value * 10 + digit > u64::MAX) by (nonlinear_arith)
                    requires
                        value > (u64::MAX - digit) / 10,
                        digit <= 9,
                ;
                assert(all_digits(next)) by {
                    assert forall|k: int| 0 <= k < next.len() implies 48 <= #[trigger] next[k]
                        <= 57 by {
                        if k < next.len() - 1 {
                            assert(next[k] == d.subrange(0, i - start)[k]);
                        }
                    }
                }
                assert(digits_value(next) == value * 10 + digit);
                if all_digits(d) {
                    lemma_digits_prefix(d, i + 1 - start);
                    assert(digits_value(d) > u64::MAX);
                }
                assert(decimal_u64(b@) is None);
            }
            return None;
        }
        assert(value * 10 + digit <= u64::MAX) by (nonlinear_arith)
            requires
                value <= (u64::MAX - digit) / 10,
                digit <= 9,
        ;
        value = value * 10 + digit;
        i = i + 1;
        proof {
            assert forall|k: int| 0 <= k < next.len() implies 48 <= #[trigger] next[k] <= 57 by {
                if k < next.len() - 1 {
                    assert(next[k] == d.subrange(0, i - 1 - start)[k]);
                }
            }
        }
    }
    assert(d.subrange(0, i - start) =~= d);
    Some(value)
}

impl Config {
    pub closed spec fn spec_token(&self) -> Seq<char> {
        self.token@
    }

    pub closed spec fn spec_prefix(&self) -> Seq<char> {
        self.prefix@
    }

    pub closed spec fn spec_author_id(&self) -> u64 {
        self.author_id
    }

    pub closed spec fn spec_spotify_client_id(&self) -> Seq<char> {
        self.spotify_client_id@
    }

    pub closed spec fn spec_spotify_client_secret(&self) -> Seq<char> {
        self.spotify_client_secret@
    }

    pub closed spec fn spec_spotify_redirect_uri(&self) -> Seq<char> {
        self.spotify_redirect_uri@
    }

    /// Settings from the values of the environment: the prefix is `!` and the
    /// owner id must be an unsigned decimal number.
    pub fn new(
        token: String,
        client_id: String,
        client_secret: String,
        redirect_uri: String,
        author_id: &str,
    ) -> (r: Result<Config, ConfigError>)
        ensures
            decimal_u64(author_id.spec_bytes()) is None ==> r == Err::<Config, ConfigError>(
                ConfigError::InvalidAuthorId,
            ),
            decimal_u64(author_id.spec_bytes()) is Some ==> r is Ok && {
                let c = r->Ok_0;
                &&& c.spec_token() == token@
                &&& c.spec_prefix() == seq!['!']
                &&& c.spec_author_id() == decimal_u64(author_id.spec_bytes())->Some_0
                &&& c.spec_spotify_client_id() == client_id@
                &&& c.spec_spotify_client_secret() == client_secret@
                &&& c.spec_spotify_redirect_uri() == redirect_uri@
            },
    {
        match parse_decimal_u64(author_id) {
            None => Err(ConfigError::InvalidAuthorId),
            Some(id) => {
                proof {
                    reveal_strlit("!");
                }
                let prefix = "!".to_owned();
                Ok(
                    Config {
                        token,
                        prefix,
                        author_id: id,
                        spotify_client_id: client_id,
                        spotify_client_secret: client_secret,
                        spotify_redirect_uri: redirect_uri,
                    },
                )
            },
        }
    }

    /// Settings with every field given, as read back from a saved file.
    pub fn from_parts(
        token: String,
        prefix: String,
        author_id: u64,
        spotify_client_id: String,
        spotify_client_secret: String,
        spotify_redirect_uri: String,
    ) -> (c: Config)
        ensures
            c.spec_token() == token@,
            c.spec_prefix() == prefix@,
            c.spec_author_id() == author_id,
            c.spec_spotify_client_id() == spotify_client_id@,
            c.spec_spotify_client_secret() == spotify_client_secret@,
            c.spec_spotify_redirect_uri() == spotify_redirect_uri@,
    {
        Config {
            token,
            prefix,
            author_id,
            spotify_client_id,
            spotify_client_secret,
            spotify_redirect_uri,
        }
    }

    pub fn token(&self) -> (r: &String)
        ensures
            r@ == self.spec_token(),
    {
        &self.token
    }

    pub fn prefix(&self) -> (r: &String)
        ensures
            r@ == self.spec_prefix(),
    {
        &self.prefix
    }

    pub fn author_id(&self) -> (r: u64)
        ensures
            r == self.spec_author_id(),
    {
        self.author_id
    }

    pub fn spotify_client_id(&self) -> (r: &String)
        ensures
            r@ == self.spec_spotify_client_id(),
    {
        &self.spotify_client_id
    }

    pub fn spotify_client_secret(&self) -> (r: &String)
        ensures
            r@ == self.spec_spotify_client_secret(),
    {
        &self.spotify_client_secret
    }

    pub fn spotify_redirect_uri(&self) -> (r: &String)
        ensures
            r@ == self.spec_spotify_redirect_uri(),
    {
        &self.spotify_redirect_uri
    }
}

} // verus!
