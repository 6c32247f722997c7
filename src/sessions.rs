use vstd::prelude::*;
use crate::entity::PeerAddr;

verus! {

/// A peer's binding to a group and a virtual IP.
pub struct Session {
    pub addr: PeerAddr,
    pub group: String,
    pub virtual_ip: u32,
    /// When the binding was last written, in milliseconds since the Unix epoch.
    pub updated: i64,
}

/// A session table in which no address appears twice.
pub open spec fn addr_unique(s: Seq<Session>) -> bool {
    forall|i: int, j: int|
        0 <= i < s.len() && 0 <= j < s.len() && i != j ==> #[trigger] s[i].addr != #[trigger] s[j].addr
}

/// A session table in which no (group, virtual IP) pair appears twice.
pub open spec fn key_unique(s: Seq<Session>) -> bool {
    forall|i: int, j: int|
        0 <= i < s.len() && 0 <= j < s.len() && i != j ==> (#[trigger] s[i].group@, s[i].virtual_ip)
            != (#[trigger] s[j].group@, s[j].virtual_ip)
}

/// What the address table maps `a` to.
pub open spec fn addr_lookup(s: Seq<Session>, a: PeerAddr) -> Option<(Seq<char>, u32)> {
    if exists|i: int| 0 <= i < s.len() && s[i].addr == a {
        let i = choose|i: int| 0 <= i < s.len() && s[i].addr == a;
        Some((s[i].group@, s[i].virtual_ip))
    } else {
        None
    }
}

/// What the (group, virtual IP) table maps `(g, v)` to.
pub open spec fn key_lookup(s: Seq<Session>, g: Seq<char>, v: u32) -> Option<PeerAddr> {
    if exists|i: int| 0 <= i < s.len() && s[i].group@ == g && s[i].virtual_ip == v {
        let i = choose|i: int| 0 <= i < s.len() && s[i].group@ == g && s[i].virtual_ip == v;
        Some(s[i].addr)
    } else {
        None
    }
}

/// Position of the session of address `a`.
pub fn find_addr(s: &Vec<Session>, a: PeerAddr) -> (r: Option<usize>)
    ensures
        r matches Some(k) ==> k < s@.len() && s@[k as int].addr == a,
        r is None ==> forall|i: int| 0 <= i < s@.len() ==> s@[i].addr != a,
{
    let mut i: usize = 0;
    while i < s.len()
        invariant
            0 <= i <= s@.len(),
            forall|j: int| 0 <= j < i ==> s@[j].addr != a,
        decreases s@.len() - i,
    {
        if s[i].addr == a {
            return Some(i);
        }
        i = i + 1;
    }
    None
}

/// Position of the session of `(group, virtual_ip)`.
pub fn find_key(s: &Vec<Session>, group: &String, virtual_ip: u32) -> (r: Option<usize>)
    ensures
        r matches Some(k) ==> k < s@.len() && s@[k as int].group@ == group@ && s@[k as int].virtual_ip
            == virtual_ip,
        r is None ==> forall|i: int|
            0 <= i < s@.len() ==> !(s@[i].group@ == group@ && s@[i].virtual_ip == virtual_ip),
{
    let mut i: usize = 0;
    while i < s.len()
        invariant
            0 <= i <= s@.len(),
            forall|j: int| 0 <= j < i ==> !(s@[j].group@ == group@ && s@[j].virtual_ip == virtual_ip),
        decreases s@.len() - i,
    {
        if s[i].virtual_ip == virtual_ip && s[i].group == *group {
            return Some(i);
        }
        i = i + 1;
    }
    None
}

/// Binds `addr` to `(group, virtual_ip)` in the address table; other addresses keep theirs.
pub fn insert_addr_session(
    s: &mut Vec<Session>,
    addr: PeerAddr,
    group: String,
    virtual_ip: u32,
    now: i64,
)
    requires
        addr_unique(old(s)@),
    ensures
        addr_unique(final(s)@),
        addr_lookup(final(s)@, addr) == Some((group@, virtual_ip)),
        forall|b: PeerAddr| b != addr ==> addr_lookup(final(s)@, b) == addr_lookup(old(s)@, b),
{
    let ghost g = group@;
    let entry = Session { addr, group, virtual_ip, updated: now };
    let ghost mut w: int = 0;
    match find_addr(s, addr) {
        Some(k) => {
            s.set(k, entry);
            proof {
                w = k as int;
            }
        },
        None => {
            s.push(entry);
            proof {
                w = s@.len() - 1;
            }
        },
    }
    assert(s@[w].addr == addr && s@[w].group@ == g);
    proof {
        let n = s@;
        let o = old(s)@;
        assert forall|b: PeerAddr| b != addr implies addr_lookup(n, b) == addr_lookup(o, b) by {
            if exists|i: int| 0 <= i < o.len() && o[i].addr == b {
                let i = choose|i: int| 0 <= i < o.len() && o[i].addr == b;
                assert(n[i] == o[i]);
                let j = choose|j: int| 0 <= j < n.len() && n[j].addr == b;
                assert(j == i);
            } else {
                assert(!exists|i: int| 0 <= i < n.len() && n[i].addr == b) by {
                    if exists|i: int| 0 <= i < n.len() && n[i].addr == b {
                        let i = choose|i: int| 0 <= i < n.len() && n[i].addr == b;
                        assert(i < o.len() && n[i] == o[i]);
                    }
                }
            }
        }
        let j = choose|j: int| 0 <= j < n.len() && n[j].addr == addr;
        assert(n[j].group@ == g);
    }
}

/// Binds `(group, virtual_ip)` to `addr` in the key table; other keys keep theirs.
pub fn insert_ip_session(
    s: &mut Vec<Session>,
    group: String,
    virtual_ip: u32,
    addr: PeerAddr,
    now: i64,
)
    requires
        key_unique(old(s)@),
    ensures
        key_unique(final(s)@),
        key_lookup(final(s)@, group@, virtual_ip) == Some(addr),
        forall|g: Seq<char>, v: u32|
            !(g == group@ && v == virtual_ip) ==> key_lookup(final(s)@, g, v) == key_lookup(
                old(s)@,
                g,
                v,
            ),
{
    let ghost gr = group@;
    let found = find_key(s, &group, virtual_ip);
    let entry = Session { addr, group, virtual_ip, updated: now };
    let ghost mut w: int = 0;
    match found {
        Some(k) => {
            s.set(k, entry);
            proof {
                w = k as int;
            }
        },
        None => {
            s.push(entry);
            proof {
                w = s@.len() - 1;
            }
        },
    }
    assert(s@[w].addr == addr && s@[w].group@ == gr && s@[w].virtual_ip == virtual_ip);
    proof {
        let n = s@;
        let o = old(s)@;
        assert forall|g: Seq<char>, v: u32| !(g == gr && v == virtual_ip) implies key_lookup(n, g, v)
            == key_lookup(o, g, v) by {
            if exists|i: int| 0 <= i < o.len() && o[i].group@ == g && o[i].virtual_ip == v {
                let i = choose|i: int| 0 <= i < o.len() && o[i].group@ == g && o[i].virtual_ip == v;
                assert(n[i] == o[i]);
                let j = choose|j: int| 0 <= j < n.len() && n[j].group@ == g && n[j].virtual_ip == v;
                assert(j == i);
            } else {
                assert(!exists|i: int| 0 <= i < n.len() && n[i].group@ == g && n[i].virtual_ip == v)
                    by {
                    if exists|i: int| 0 <= i < n.len() && n[i].group@ == g && n[i].virtual_ip == v {
                        let i = choose|i: int|
                            0 <= i < n.len() && n[i].group@ == g && n[i].virtual_ip == v;
                        assert(i < o.len() && n[i] == o[i]);
                    }
                }
            }
        }
        let j = choose|j: int| 0 <= j < n.len() && n[j].group@ == gr && n[j].virtual_ip == virtual_ip;
        assert(n[j].addr == addr);
    }
}

/// A peer's symmetric session with the server, established by the secret
/// handshake: the session key and the token it was bound with.
pub struct CipherSession {
    pub addr: PeerAddr,
    pub key: Vec<u8>,
    pub token: String,
    /// When the session was installed, in milliseconds since the Unix epoch.
    pub updated: i64,
}

/// A cipher table in which no address appears twice.
pub open spec fn cipher_unique(s: Seq<CipherSession>) -> bool {
    forall|i: int, j: int|
        0 <= i < s.len() && 0 <= j < s.len() && i != j ==> #[trigger] s[i].addr != #[trigger] s[j].addr
}

/// Whether `a` has a cipher session.
pub open spec fn has_cipher(s: Seq<CipherSession>, a: PeerAddr) -> bool {
    exists|i: int| 0 <= i < s.len() && s[i].addr == a
}

/// The key and token of the cipher session of `a`.
pub open spec fn cipher_lookup(s: Seq<CipherSession>, a: PeerAddr) -> Option<(Seq<u8>, Seq<char>)> {
    if has_cipher(s, a) {
        let i = choose|i: int| 0 <= i < s.len() && s[i].addr == a;
        Some((s[i].key@, s[i].token@))
    } else {
        None
    }
}

/// Position of the cipher session of `a`.
pub fn find_cipher(s: &Vec<CipherSession>, a: PeerAddr) -> (r: Option<usize>)
    ensures
        r matches Some(k) ==> k < s@.len() && s@[k as int].addr == a,
        r is None ==> !has_cipher(s@, a),
{
    let mut i: usize = 0;
    while i < s.len()
        invariant
            0 <= i <= s@.len(),
            forall|j: int| 0 <= j < i ==> s@[j].addr != a,
        decreases s@.len() - i,
    {
        if s[i].addr == a {
            return Some(i);
        }
        i = i + 1;
    }
    None
}

/// Binds `addr` to a cipher session, replacing any earlier one; other
/// addresses keep theirs.
pub fn insert_cipher_session(
    s: &mut Vec<CipherSession>,
    addr: PeerAddr,
    key: Vec<u8>,
    token: String,
    now: i64,
)
    requires
        cipher_unique(old(s)@),
    ensures
        cipher_unique(final(s)@),
        cipher_lookup(final(s)@, addr) == Some((key@, token@)),
        forall|b: PeerAddr| b != addr ==> cipher_lookup(final(s)@, b) == cipher_lookup(old(s)@, b),
{
    let ghost kv = key@;
    let ghost tv = token@;
    let entry = CipherSession { addr, key, token, updated: now };
    let ghost mut w: int = 0;
    match find_cipher(s, addr) {
        Some(k) => {
            s.set(k, entry);
            proof {
                w = k as int;
            }
        },
        None => {
            s.push(entry);
            proof {
                w = s@.len() - 1;
            }
        },
    }
    assert(s@[w].addr == addr && s@[w].key@ == kv && s@[w].token@ == tv);
    proof {
        let n = s@;
        let o = old(s)@;
        assert forall|b: PeerAddr| b != addr implies cipher_lookup(n, b) == cipher_lookup(o, b) by {
            if has_cipher(o, b) {
                let i = choose|i: int| 0 <= i < o.len() && o[i].addr == b;
                assert(n[i] == o[i]);
                let j = choose|j: int| 0 <= j < n.len() && n[j].addr == b;
                assert(j == i);
            } else {
                assert(!has_cipher(n, b)) by {
                    if has_cipher(n, b) {
                        let i = choose|i: int| 0 <= i < n.len() && n[i].addr == b;
                        assert(i < o.len() && n[i] == o[i]);
                    }
                }
            }
        }
        let j = choose|j: int| 0 <= j < n.len() && n[j].addr == addr;
        assert(j == w);
    }
}

/// Whether an entry written at `updated` is still alive at `now` with time-to-live `ttl`.
pub open spec fn fresh(updated: i64, now: i64, ttl: i64) -> bool {
    updated as int + ttl as int >= now as int
}

/// The entries of `s` that `keep` accepts, in order.
pub open spec fn kept<A>(s: Seq<A>, keep: spec_fn(A) -> bool) -> Seq<A>
    decreases s.len(),
{
    if s.len() == 0 {
        s
    } else {
        let t = kept(s.drop_last(), keep);
        if keep(s.last()) {
            t.push(s.last())
        } else {
            t
        }
    }
}

/// Every kept entry is an entry of `s`.
pub proof fn lemma_kept_from<A>(s: Seq<A>, keep: spec_fn(A) -> bool)
    ensures
        kept(s, keep).len() <= s.len(),
        forall|k: int|
            0 <= k < kept(s, keep).len() ==> exists|j: int|
                0 <= j < s.len() && #[trigger] kept(s, keep)[k] == s[j],
    decreases s.len(),
{
    if s.len() > 0 {
        let d = s.drop_last();
        lemma_kept_from(d, keep);
        assert forall|k: int| 0 <= k < kept(s, keep).len() implies exists|j: int|
            0 <= j < s.len() && #[trigger] kept(s, keep)[k] == s[j] by {
            if k < kept(d, keep).len() {
                let j = choose|j: int| 0 <= j < d.len() && kept(d, keep)[k] == d[j];
                assert(kept(s, keep)[k] == s[j]);
            } else {
                assert(kept(s, keep)[k] == s[s.len() - 1]);
            }
        }
    }
}

/// Keeping some entries keeps keys distinct.
pub proof fn lemma_kept_unique<A, K>(s: Seq<A>, keep: spec_fn(A) -> bool, key: spec_fn(A) -> K)
    requires
        forall|i: int, j: int|
            0 <= i < s.len() && 0 <= j < s.len() && i != j ==> key(s[i]) != key(s[j]),
    ensures
        forall|i: int, j: int|
            0 <= i < kept(s, keep).len() && 0 <= j < kept(s, keep).len() && i != j ==> key(
                kept(s, keep)[i],
            ) != key(kept(s, keep)[j]),
    decreases s.len(),
{
    if s.len() > 0 {
        let d = s.drop_last();
        assert forall|i: int, j: int|
            0 <= i < d.len() && 0 <= j < d.len() && i != j implies key(d[i]) != key(d[j]) by {
            assert(d[i] == s[i] && d[j] == s[j]);
        }
        lemma_kept_unique(d, keep, key);
        lemma_kept_from(d, keep);
        let t = kept(d, keep);
        if keep(s.last()) {
            assert forall|k: int| 0 <= k < t.len() implies key(t[k]) != key(s.last()) by {
                let j = choose|j: int| 0 <= j < d.len() && t[k] == d[j];
                assert(d[j] == s[j]);
            }
        }
    }
}

/// The address or key sessions of `s` still alive at `now`.
pub fn retain_fresh(s: Vec<Session>, now: i64, ttl: i64) -> (r: Vec<Session>)
    ensures
        r@ == kept(s@, |x: Session| fresh(x.updated, now, ttl)),
{
    let ghost o = s@;
    let ghost keep = |x: Session| fresh(x.updated, now, ttl);
    let mut s = s;
    let mut r: Vec<Session> = Vec::new();
    let ghost mut i: int = 0;
    while s.len() > 0
        invariant
            keep == (|x: Session| fresh(x.updated, now, ttl)),
            0 <= i <= o.len(),
            s@ == o.subrange(i, o.len() as int),
            r@ == kept(o.subrange(0, i), keep),
        decreases s@.len(),
    {
        let x = s.remove(0);
        proof {
            assert(o.subrange(0, i + 1).drop_last() =~= o.subrange(0, i));
            assert(o.subrange(0, i + 1).last() == x);
            assert(keep(x) == fresh(x.updated, now, ttl));
            assert(kept(o.subrange(0, i + 1), keep) == if keep(x) {
                kept(o.subrange(0, i), keep).push(x)
            } else {
                kept(o.subrange(0, i), keep)
            });
        }
        if (x.updated as i128) + (ttl as i128) >= now as i128 {
            r.push(x);
        }
        proof {
            i = i + 1;
            assert(s@ =~= o.subrange(i, o.len() as int));
        }
    }
    assert(o.subrange(0, i) =~= o);
    r
}

/// The cipher sessions of `s` still alive at `now`.
pub fn retain_fresh_ciphers(s: Vec<CipherSession>, now: i64, ttl: i64) -> (r: Vec<CipherSession>)
    ensures
        r@ == kept(s@, |x: CipherSession| fresh(x.updated, now, ttl)),
{
    let ghost o = s@;
    let ghost keep = |x: CipherSession| fresh(x.updated, now, ttl);
    let mut s = s;
    let mut r: Vec<CipherSession> = Vec::new();
    let ghost mut i: int = 0;
    while s.len() > 0
        invariant
            keep == (|x: CipherSession| fresh(x.updated, now, ttl)),
            0 <= i <= o.len(),
            s@ == o.subrange(i, o.len() as int),
            r@ == kept(o.subrange(0, i), keep),
        decreases s@.len(),
    {
        let x = s.remove(0);
        proof {
            assert(o.subrange(0, i + 1).drop_last() =~= o.subrange(0, i));
            assert(o.subrange(0, i + 1).last() == x);
            assert(keep(x) == fresh(x.updated, now, ttl));
            assert(kept(o.subrange(0, i + 1), keep) == if keep(x) {
                kept(o.subrange(0, i), keep).push(x)
            } else {
                kept(o.subrange(0, i), keep)
            });
        }
        if (x.updated as i128) + (ttl as i128) >= now as i128 {
            r.push(x);
        }
        proof {
            i = i + 1;
            assert(s@ =~= o.subrange(i, o.len() as int));
        }
    }
    assert(o.subrange(0, i) =~= o);
    r
}

} // verus!
