//! The session configuration: settings as given, and what `setup` derives
//! from them once (backend endpoint, wildcard address, durations, password
//! digests), plus the DNS cache that stays mutable afterwards.

use vstd::prelude::*;

use crate::addr::{
    placeholder_for, placeholder_of, preferred_ip, select_backend, IpAddress, SocketAddress,
    TLS_PORT,
};
use crate::digest::{digest, sha224_hex, DIGEST_LEN};
use crate::dns_cache::{after_lookup, after_update, lookup_answer, DnsCache};

verus! {

/// Why `setup` could not complete.
#[derive(Clone, Copy, Debug, PartialEq, Eq, Structural)]
pub enum SetupError {
    /// Server mode needs both a certificate and a private key path.
    MissingCertOrKey,
    /// Proxy mode needs the server's hostname.
    MissingHostname,
    /// The configured remote address is not a socket address.
    BadRemoteAddress,
    /// Resolving the hostname gave no address.
    ResolveFailed,
}

/// Whether `i` is the first position of `d` that holds `c`.
pub open spec fn first_match(d: Seq<Seq<char>>, c: Seq<char>, i: int) -> bool {
    0 <= i < d.len() && d[i] == c && forall|j: int| 0 <= j < i ==> d[j] != c
}

/// The password whose digest is the first among `d` to equal `c`, if any.
pub open spec fn verify_answer(pw: Seq<Seq<char>>, d: Seq<Seq<char>>, c: Seq<char>) -> Option<
    Seq<char>,
> {
    if exists|i: int| first_match(d, c, i) {
        Some(pw[choose|i: int| first_match(d, c, i)])
    } else {
        None
    }
}

/// The digests of the given passwords, in order.
pub open spec fn digests_of(pw: Seq<Seq<char>>) -> Seq<Seq<char>> {
    pw.map_values(|p: Seq<char>| sha224_hex(p))
}

/// A hostname in fully qualified form: with a trailing dot.
pub open spec fn fully_qualified(h: Seq<char>) -> Seq<char> {
    if h.len() > 0 && h.last() == '.' {
        h
    } else {
        h.push('.')
    }
}

/// The settings and the state derived from them.
pub struct Opts {
    pub cert: Option<String>,
    pub key: Option<String>,
    pub log_file: Option<String>,
    pub local_addr: String,
    pub remote_addr: String,
    pub password: Vec<String>,
    pub log_level: u8,
    pub dns_cache_time: u64,
    pub marker: u8,
    pub mode: String,
    pub hostname: Option<String>,
    pub idle_timeout: u64,
    pub dns_cache_duration: u64,
    pub sha_pass: Vec<String>,
    pub pass_len: usize,
    pub back_addr: Option<SocketAddress>,
    pub dns_cache: DnsCache,
    pub udp_header_len: usize,
    pub empty_addr: Option<SocketAddress>,
    pub idle_duration: u64,
}

impl Opts {
    /// The configured passwords, in order.
    pub open spec fn passwords(&self) -> Seq<Seq<char>> {
        self.password@.map_values(|s: String| s@)
    }

    /// The digests held for comparison, in order.
    pub open spec fn digests(&self) -> Seq<Seq<char>> {
        self.sha_pass@.map_values(|s: String| s@)
    }

    /// The configured lifetime of cached DNS answers, in seconds.
    pub open spec fn configured_cache_secs(&self) -> u64 {
        self.dns_cache_time
    }

    /// The lifetime in force for cached DNS answers, in seconds.
    pub open spec fn cache_secs(&self) -> u64 {
        self.dns_cache_duration
    }

    /// No more digests than passwords, and a well-formed cache.
    pub open spec fn wf(&self) -> bool {
        self.sha_pass.len() <= self.password.len() && self.dns_cache.wf()
    }

    /// The password that `check_pass` answers for the candidate digest `c`.
    pub open spec fn check_answer(&self, c: Seq<char>) -> Option<Seq<char>> {
        verify_answer(self.passwords(), self.digests(), c)
    }

    /// Whether the configured mode is the server role.
    pub open spec fn server_mode(&self) -> bool {
        self.mode@ == "server"@
    }

    /// The backend endpoint that `setup` derives from these settings, the
    /// parsed remote address and the resolved candidates, or its error.
    pub open spec fn backend_outcome(&self, remote: Option<SocketAddress>, c: Seq<IpAddress>) -> Result<
        SocketAddress,
        SetupError,
    > {
        if self.server_mode() {
            if self.cert is None || self.key is None {
                Err(SetupError::MissingCertOrKey)
            } else {
                match remote {
                    Some(a) => Ok(a),
                    None => Err(SetupError::BadRemoteAddress),
                }
            }
        } else if self.hostname is None {
            Err(SetupError::MissingHostname)
        } else {
            match preferred_ip(c) {
                Some(ip) => Ok(SocketAddress { ip, port: TLS_PORT }),
                None => Err(SetupError::ResolveFailed),
            }
        }
    }

    /// Settings as given; nothing is derived until `setup`.
    pub fn new(
        cert: Option<String>,
        key: Option<String>,
        log_file: Option<String>,
        local_addr: String,
        remote_addr: String,
        password: Vec<String>,
        log_level: u8,
        dns_cache_time: u64,
        marker: u8,
        mode: String,
        hostname: Option<String>,
        idle_timeout: u64,
    ) -> (r: Opts)
        ensures
            r.wf(),
            r.cert == cert,
            r.key == key,
            r.log_file == log_file,
            r.local_addr == local_addr,
            r.remote_addr == remote_addr,
            r.passwords() == password@.map_values(|s: String| s@),
            r.digests().len() == 0,
            r.log_level == log_level,
            r.configured_cache_secs() == dns_cache_time,
            r.marker == marker,
            r.mode == mode,
            r.hostname == hostname,
            r.idle_timeout == idle_timeout,
            r.back_addr is None,
            r.empty_addr is None,
            r.dns_cache@ == Map::<Seq<char>, crate::dns_cache::DnsEntry>::empty(),
    {
        Opts {
            cert,
            key,
            log_file,
            local_addr,
            remote_addr,
            password,
            log_level,
            dns_cache_time,
            marker,
            mode,
            hostname,
            idle_timeout,
            dns_cache_duration: 0,
            sha_pass: Vec::new(),
            pass_len: 0,
            back_addr: None,
            dns_cache: DnsCache::new(),
            udp_header_len: 0,
            empty_addr: None,
            idle_duration: 0,
        }
    }

    /// Whether the configured mode is the server role.
    pub fn is_server_mode(&self) -> (r: bool)
        ensures
            r == self.server_mode(),
    {
        let server = String::from_str("server");
        proof {
            reveal_strlit("server");
        }
        self.mode == server
    }

    /// The hostname to resolve in proxy mode, in fully qualified form.
    pub fn lookup_host(&self) -> (r: Option<String>)
        ensures
            match self.hostname {
                None => r is None,
                Some(h) => r matches Some(s) && s@ == fully_qualified(h@),
            },
    {
        match &self.hostname {
            None => None,
            Some(h) => {
                let s = h.as_str();
                let n = s.unicode_len();
                if n > 0 && s.get_char(n - 1) == '.' {
                    Some(h.clone())
                } else {
                    let mut r = h.clone();
                    proof {
                        reveal_strlit(".");
                    }
                    r.append(".");
                    Some(r)
                }
            },
        }
    }

    /// Computes the digest of every password, in order.
    fn digest_pass(&mut self)
        requires
            old(self).wf(),
        ensures
            final(self).wf(),
            final(self).digests() == digests_of(old(self).passwords()),
            forall|i: int| 0 <= i < final(self).digests().len() ==> final(self).digests()[i].len() == DIGEST_LEN,
            final(self).passwords() == old(self).passwords(),
            old(self).passwords().len() > 0 ==> final(self).pass_len == DIGEST_LEN,
            old(self).passwords().len() == 0 ==> final(self).pass_len == old(self).pass_len,
            *final(self) == (Opts {
                sha_pass: final(self).sha_pass,
                pass_len: final(self).pass_len,
                ..*old(self)
            }),
    {
        self.sha_pass.clear();
        let mut i: usize = 0;
        while i < self.password.len()
            invariant
                i <= self.password.len(),
                self.sha_pass.len() == i,
                self.password == old(self).password,
                self.dns_cache == old(self).dns_cache,
                self.dns_cache.wf(),
                forall|j: int| 0 <= j < i ==> self.sha_pass@[j]@ == sha224_hex(self.password@[j]@),
                forall|j: int| 0 <= j < i ==> self.sha_pass@[j]@.len() == DIGEST_LEN,
                i > 0 ==> self.pass_len == DIGEST_LEN,
                i == 0 ==> self.pass_len == old(self).pass_len,
                *self == (Opts {
                    sha_pass: self.sha_pass,
                    pass_len: self.pass_len,
                    ..*old(self)
                }),
            decreases self.password.len() - i,
        {
            let result = digest(self.password[i].as_str());
            self.pass_len = result.as_str().unicode_len();
            self.sha_pass.push(result);
            i = i + 1;
        }
        assert(self.digests() =~= digests_of(old(self).passwords()));
    }

    /// Derives the backend endpoint, the wildcard address of its family,
    /// the durations and the password digests. `remote` is the configured
    /// remote address as parsed (`None` where it does not parse);
    /// `candidates` are the addresses the hostname resolved to, in order.
    pub fn setup(&mut self, remote: Option<SocketAddress>, candidates: &Vec<IpAddress>) -> (r: Result<
        (),
        SetupError,
    >)
        requires
            old(self).wf(),
        ensures
            final(self).wf(),
            match old(self).backend_outcome(remote, candidates@) {
                Err(e) => r == Err::<(), SetupError>(e) && *final(self) == *old(self),
                Ok(b) => {
                    &&& r is Ok
                    &&& final(self).back_addr == Some(b)
                    &&& final(self).empty_addr == Some(placeholder_of(b))
                    &&& final(self).cache_secs() == old(self).configured_cache_secs()
                    &&& final(self).idle_duration == old(self).idle_timeout
                    &&& final(self).passwords() == old(self).passwords()
                    &&& final(self).digests() == digests_of(old(self).passwords())
                    &&& forall|i: int|
                        0 <= i < final(self).digests().len() ==> final(self).digests()[i].len()
                            == final(self).pass_len
                    &&& old(self).passwords().len() > 0 ==> final(self).pass_len == DIGEST_LEN
                    &&& *final(self) == (Opts {
                        back_addr: final(self).back_addr,
                        empty_addr: final(self).empty_addr,
                        dns_cache_duration: final(self).dns_cache_duration,
                        idle_duration: final(self).idle_duration,
                        sha_pass: final(self).sha_pass,
                        pass_len: final(self).pass_len,
                        ..*old(self)
                    })
                },
            },
    {
        let back_addr = if self.is_server_mode() {
            if self.cert.is_none() || self.key.is_none() {
                return Err(SetupError::MissingCertOrKey);
            }
            match remote {
                Some(a) => a,
                None => {
                    return Err(SetupError::BadRemoteAddress);
                },
            }
        } else {
            if self.hostname.is_none() {
                return Err(SetupError::MissingHostname);
            }
            match select_backend(candidates) {
                Some(a) => a,
                None => {
                    return Err(SetupError::ResolveFailed);
                },
            }
        };
        self.back_addr = Some(back_addr);
        self.empty_addr = Some(placeholder_for(&back_addr));
        self.dns_cache_duration = self.dns_cache_time;
        self.idle_duration = self.idle_timeout;
        self.digest_pass();
        Ok(())
    }
    /// The password whose digest is `pass`, scanning the digests in order.
    pub fn check_pass(&self, pass: &str) -> (r: Option<&String>)
        requires
            self.wf(),
        ensures
            match r {
                Some(s) => self.check_answer(pass@) == Some(s@),
                None => self.check_answer(pass@) is None,
            },
    {
        let candidate = String::from_str(pass);
        let mut i: usize = 0;
        while i < self.sha_pass.len()
            invariant
                self.wf(),
                candidate@ == pass@,
                i <= self.sha_pass.len(),
                forall|j: int| 0 <= j < i ==> self.digests()[j] != pass@,
            decreases self.sha_pass.len() - i,
        {
            if self.sha_pass[i] == candidate {
                proof {
                    assert(first_match(self.digests(), pass@, i as int));
                    let k = choose|k: int| first_match(self.digests(), pass@, k);
                    if k > i {
                        assert(self.digests()[i as int] == pass@);
                    }
                }
                return Some(&self.password[i]);
            }
            i = i + 1;
        }
        None
    }

    /// The first digest, used as this side's credential.
    pub fn get_pass(&self) -> (r: &String)
        requires
            self.digests().len() > 0,
        ensures
            r@ == self.digests()[0],
    {
        &self.sha_pass[0]
    }

    /// Caches `address` for `domain` at `now` (milliseconds on the cache's
    /// clock), for the lifetime set up.
    pub fn update_dns_at(&mut self, domain: String, address: IpAddress, now: u64)
        requires
            old(self).wf(),
        ensures
            final(self).wf(),
            final(self).dns_cache@ == after_update(
                old(self).dns_cache@,
                domain@,
                address,
                now,
                old(self).cache_secs(),
            ),
            *final(self) == (Opts { dns_cache: final(self).dns_cache, ..*old(self) }),
    {
        self.dns_cache.update_at(domain, address, now, self.dns_cache_duration);
    }

    /// Caches `address` for `domain` from the present moment on.
    pub fn update_dns(&mut self, domain: String, address: IpAddress)
        requires
            old(self).wf(),
        ensures
            final(self).wf(),
            exists|now: u64|
                final(self).dns_cache@ == after_update(
                    old(self).dns_cache@,
                    domain@,
                    address,
                    now,
                    old(self).cache_secs(),
                ),
            *final(self) == (Opts { dns_cache: final(self).dns_cache, ..*old(self) }),
    {
        let now = self.dns_cache.now();
        self.update_dns_at(domain, address, now);
    }

    /// The cached address of `domain` if still served at `now`; an expired
    /// entry is removed.
    pub fn query_dns_at(&mut self, domain: &String, now: u64) -> (r: Option<IpAddress>)
        requires
            old(self).wf(),
        ensures
            final(self).wf(),
            r == lookup_answer(old(self).dns_cache@, domain@, now),
            final(self).dns_cache@ == after_lookup(old(self).dns_cache@, domain@, now),
            *final(self) == (Opts { dns_cache: final(self).dns_cache, ..*old(self) }),
    {
        self.dns_cache.query_at(domain, now)
    }

    /// The cached address of `domain` if still served at the present
    /// moment; an expired entry is removed.
    pub fn query_dns(&mut self, domain: &String) -> (r: Option<IpAddress>)
        requires
            old(self).wf(),
        ensures
            final(self).wf(),
            exists|now: u64|
                r == lookup_answer(old(self).dns_cache@, domain@, now) && final(self).dns_cache@
                    == after_lookup(old(self).dns_cache@, domain@, now),
            *final(self) == (Opts { dns_cache: final(self).dns_cache, ..*old(self) }),
    {
        let now = self.dns_cache.now();
        self.query_dns_at(domain, now)
    }
}

/// Some position of `d` holding `c` means a first such position exists.
proof fn lemma_first_match_exists(d: Seq<Seq<char>>, c: Seq<char>, i: int)
    requires
        0 <= i < d.len(),
        d[i] == c,
    ensures
        exists|k: int| first_match(d, c, k),
    decreases i,
{
    if exists|j: int| 0 <= j < i && d[j] == c {
        let j = choose|j: int| 0 <= j < i && d[j] == c;
        lemma_first_match_exists(d, c, j);
    } else {
        assert(first_match(d, c, i));
    }
}

/// Once the digests are set up, the digest of a configured password is
/// answered with that password, where no other configured password shares
/// its digest.
pub proof fn lemma_own_digest_verifies(o: Opts, i: int)
    requires
        o.digests() == digests_of(o.passwords()),
        0 <= i < o.passwords().len(),
        forall|j: int|
            0 <= j < o.passwords().len() && sha224_hex(o.passwords()[j]) == sha224_hex(
                o.passwords()[i],
            ) ==> o.passwords()[j] == o.passwords()[i],
    ensures
        o.check_answer(sha224_hex(o.passwords()[i])) == Some(o.passwords()[i]),
{
    let c = sha224_hex(o.passwords()[i]);
    lemma_first_match_exists(o.digests(), c, i);
    let k = choose|k: int| first_match(o.digests(), c, k);
    assert(o.digests()[k] == sha224_hex(o.passwords()[k]));
}

/// Once the digests are set up, a candidate that differs from the digest
/// of a configured password in some position is refused, where it is not
/// the digest of another configured password.
pub proof fn lemma_altered_digest_refused(o: Opts, i: int, c: Seq<char>, k: int)
    requires
        o.digests() == digests_of(o.passwords()),
        0 <= i < o.passwords().len(),
        c.len() == sha224_hex(o.passwords()[i]).len(),
        0 <= k < c.len(),
        c[k] != sha224_hex(o.passwords()[i])[k],
        forall|j: int|
            0 <= j < o.passwords().len() && o.passwords()[j] != o.passwords()[i] ==> sha224_hex(
                o.passwords()[j],
            ) != c,
    ensures
        o.check_answer(c) is None,
{
    assert forall|j: int| 0 <= j < o.digests().len() implies o.digests()[j] != c by {
        assert(o.digests()[j] == sha224_hex(o.passwords()[j]));
        if o.passwords()[j] == o.passwords()[i] {
            assert(o.digests()[j][k] != c[k]);
        }
    }
}

} // verus!
