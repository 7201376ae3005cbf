//! The cookie and key store.
//!
//! The store owns the two AEAD traffic keys and the pool of single-use
//! cookies produced by one key exchange. The pool is a FIFO sequence:
//! the oldest cookie is consumed first. The store is replaced
//! wholesale when a new key-exchange result arrives, so a stale key
//! can never authenticate under a new cookie or vice versa.

use vstd::prelude::*;
use crate::error::Error;

verus! {

/// The AEAD keys and single-use cookie pool of one NTS session.
#[derive(Debug)]
pub struct CookieStore {
    /// AEAD key protecting client-to-server packets.
    pub c2s_key: Vec<u8>,
    /// AEAD key protecting server-to-client packets.
    pub s2c_key: Vec<u8>,
    /// FIFO pool of single-use cookies; the front is consumed first.
    pub cookies: Vec<Vec<u8>>,
}

impl CookieStore {
    /// Whether the store holds a usable key pair: two keys of equal,
    /// supported length.
    pub open spec fn spec_has_keys(&self) -> bool {
        (self.c2s_key@.len() == 32 || self.c2s_key@.len() == 64) && self.s2c_key@.len()
            == self.c2s_key@.len()
    }

    /// An empty store: no keys, no cookies.
    pub fn new_empty() -> (r: CookieStore)
        ensures
            r.c2s_key@.len() == 0,
            r.s2c_key@.len() == 0,
            r.cookies@.len() == 0,
    {
        CookieStore { c2s_key: Vec::new(), s2c_key: Vec::new(), cookies: Vec::new() }
    }

    /// Replace the whole store with the keys and cookies of a new key
    /// exchange, discarding all previous keys and cookies.
    pub fn install(&mut self, c2s_key: Vec<u8>, s2c_key: Vec<u8>, cookies: Vec<Vec<u8>>)
        ensures
            final(self).c2s_key == c2s_key,
            final(self).s2c_key == s2c_key,
            final(self).cookies == cookies,
    {
        self.c2s_key = c2s_key;
        self.s2c_key = s2c_key;
        self.cookies = cookies;
    }

    /// Discard all keys and cookies.
    pub fn clear(&mut self)
        ensures
            final(self).c2s_key@.len() == 0,
            final(self).s2c_key@.len() == 0,
            final(self).cookies@.len() == 0,
    {
        self.c2s_key = Vec::new();
        self.s2c_key = Vec::new();
        self.cookies = Vec::new();
    }

    /// The number of unused cookies in the pool.
    pub fn cookie_count(&self) -> (r: usize)
        ensures
            r == self.cookies@.len(),
    {
        self.cookies.len()
    }

    /// Remove and return the oldest cookie.
    ///
    /// Succeeds exactly when the pool is non-empty, returning the
    /// front cookie and shrinking the pool by one; on an empty pool it
    /// fails with `NoCookiesAvailable` and changes nothing.
    pub fn take_cookie(&mut self) -> (r: Result<Vec<u8>, Error>)
        ensures
            old(self).cookies@.len() > 0 ==> (r matches Ok(c)
                && c == old(self).cookies@[0]
                && final(self).cookies@ == old(self).cookies@.drop_first()),
            old(self).cookies@.len() == 0 ==> r == Err::<Vec<u8>, Error>(
                Error::NoCookiesAvailable,
            ) && *final(self) == *old(self),
            final(self).c2s_key == old(self).c2s_key,
            final(self).s2c_key == old(self).s2c_key,
    {
        if self.cookies.len() == 0 {
            return Err(Error::NoCookiesAvailable);
        }
        let c = self.cookies.remove(0);
        assert(final(self).cookies@ =~= old(self).cookies@.drop_first());
        Ok(c)
    }

    /// Append a newly received cookie to the pool.
    pub fn add_cookie(&mut self, cookie: Vec<u8>)
        ensures
            final(self).cookies@ == old(self).cookies@.push(cookie),
            final(self).c2s_key == old(self).c2s_key,
            final(self).s2c_key == old(self).s2c_key,
    {
        self.cookies.push(cookie);
    }
}

/// The cookie pool that remains after `n` cookies have been taken.
pub open spec fn spec_pool_after_takes(pool: Seq<Seq<u8>>, n: int) -> Seq<Seq<u8>> {
    pool.subrange(n, pool.len() as int)
}

/// Exhaustion of the cookie pool: starting from a pool of K cookies,
/// the first K takes each see a non-empty pool, receive exactly the
/// cookies in their original order, and leave the rest, and the take
/// after the Kth sees an empty pool and so fails.
pub proof fn lemma_cookie_pool_exhaustion(pool: Seq<Seq<u8>>, n: int)
    requires
        0 <= n <= pool.len(),
    ensures
        spec_pool_after_takes(pool, 0) == pool,
        n < pool.len() ==> spec_pool_after_takes(pool, n).len() > 0,
        n < pool.len() ==> spec_pool_after_takes(pool, n)[0] == pool[n],
        n < pool.len() ==> spec_pool_after_takes(pool, n).drop_first() == spec_pool_after_takes(
            pool,
            n + 1,
        ),
        n == pool.len() ==> spec_pool_after_takes(pool, n).len() == 0,
{
    assert(spec_pool_after_takes(pool, 0) =~= pool);
    if n < pool.len() {
        assert(spec_pool_after_takes(pool, n).drop_first() =~= spec_pool_after_takes(pool, n + 1));
    }
}

} // verus!
