//! Book-keeping of the UDP clients of the bridge: those that send data to be
//! transmitted, and those registered to receive what the RX node hears.
//!
//! Times are milliseconds on a monotonic clock that the caller reads.
use vstd::prelude::*;

verus! {

/// A client's socket address.
#[derive(Debug, Clone, Copy, PartialEq, Eq, Structural)]
pub enum ClientAddr {
    V4 { ip4: u32, port: u16 },
    V6 { ip6: u128, port: u16, flowinfo: u32, scope_id: u32 },
}

/// What is known of a client.
#[derive(Debug, Clone, Copy, PartialEq, Eq, Structural)]
pub struct ClientInfo {
    /// When the client was last heard from.
    pub last_seen_ms: u64,
    pub packet_count: u64,
    pub byte_count: u64,
}

/// A client and what is known of it.
#[derive(Debug, Clone, Copy, PartialEq, Eq, Structural)]
pub struct ClientEntry {
    pub addr: ClientAddr,
    pub info: ClientInfo,
}

/// A client that has been silent for this long is dropped.
pub const CLIENT_TIMEOUT_MS: u64 = 30_000;

/// No address occurs twice.
pub open spec fn distinct_addrs(s: Seq<ClientEntry>) -> bool {
    forall|i: int, j: int| 0 <= i < j < s.len() ==> s[i].addr != s[j].addr
}

/// The address is listed.
pub open spec fn has_addr(s: Seq<ClientEntry>, a: ClientAddr) -> bool {
    exists|i: int| 0 <= i < s.len() && s[i].addr == a
}

/// The position of an address, if it is listed.
pub open spec fn index_of(s: Seq<ClientEntry>, a: ClientAddr) -> Option<int> {
    if has_addr(s, a) {
        Some(choose|i: int| 0 <= i < s.len() && s[i].addr == a)
    } else {
        None
    }
}

/// The client was heard from less than `timeout` ago (a `last_seen` later than
/// `now` counts as just now).
pub open spec fn is_active(e: ClientEntry, now_ms: u64, timeout_ms: u64) -> bool {
    (if now_ms >= e.info.last_seen_ms {
        now_ms - e.info.last_seen_ms
    } else {
        0
    }) < timeout_ms
}

/// The clients still active at `now_ms`.
pub open spec fn active_at(now_ms: u64, timeout_ms: u64) -> spec_fn(ClientEntry) -> bool {
    |e: ClientEntry| is_active(e, now_ms, timeout_ms)
}

/// The clients no longer active at `now_ms`.
pub open spec fn inactive_at(now_ms: u64, timeout_ms: u64) -> spec_fn(ClientEntry) -> bool {
    |e: ClientEntry| !is_active(e, now_ms, timeout_ms)
}

/// Cleaning up at `now_ms` keeps exactly the listed clients whose last
/// activity is less than `timeout_ms` before `now_ms` (a later last activity
/// counts as now), whatever their packet and byte counts; it drops exactly the
/// others.
pub proof fn lemma_cleanup_keeps_recent(s: Seq<ClientEntry>, e: ClientEntry, now_ms: u64, timeout_ms: u64)
    ensures
        s.filter(active_at(now_ms, timeout_ms)).contains(e) <==> (s.contains(e) && (if now_ms
            >= e.info.last_seen_ms {
            now_ms - e.info.last_seen_ms
        } else {
            0
        }) < timeout_ms),
        s.filter(inactive_at(now_ms, timeout_ms)).contains(e) <==> (s.contains(e) && (if now_ms
            >= e.info.last_seen_ms {
            now_ms - e.info.last_seen_ms
        } else {
            0
        }) >= timeout_ms),
{
    let f = active_at(now_ms, timeout_ms);
    let g = inactive_at(now_ms, timeout_ms);
    if s.contains(e) {
        let i = choose|i: int| 0 <= i < s.len() && s[i] == e;
        if f(e) {
            s.lemma_filter_contains(f, i);
        } else {
            s.lemma_filter_contains(g, i);
        }
    }
    if s.filter(f).contains(e) {
        s.lemma_filter_contains_rev(f, e);
        let i = choose|i: int| 0 <= i < s.filter(f).len() && s.filter(f)[i] == e;
        s.lemma_filter_pred(f, i);
    }
    if s.filter(g).contains(e) {
        s.lemma_filter_contains_rev(g, e);
        let i = choose|i: int| 0 <= i < s.filter(g).len() && s.filter(g)[i] == e;
        s.lemma_filter_pred(g, i);
    }
}

/// A set of clients, in the order they were first seen.
#[derive(Debug, Clone)]
pub struct ClientRegistry {
    entries: Vec<ClientEntry>,
}

impl View for ClientRegistry {
    type V = Seq<ClientEntry>;

    closed spec fn view(&self) -> Seq<ClientEntry> {
        self.entries@
    }
}

proof fn lemma_index_of_unique(s: Seq<ClientEntry>, i: int)
    requires
        distinct_addrs(s),
        0 <= i < s.len(),
    ensures
        index_of(s, s[i].addr) == Some(i),
{
    let a = s[i].addr;
    assert(has_addr(s, a));
    let c = choose|k: int| 0 <= k < s.len() && s[k].addr == a;
    assert(0 <= c < s.len() && s[c].addr == a);
    if c < i {
        assert(s[c].addr != s[i].addr);
    } else if c > i {
        assert(s[i].addr != s[c].addr);
    }
}

impl ClientRegistry {
    /// No client.
    pub fn new() -> (r: ClientRegistry)
        ensures
            r@ == Seq::<ClientEntry>::empty(),
    {
        ClientRegistry { entries: Vec::new() }
    }

    /// Number of clients.
    pub fn len(&self) -> (n: usize)
        ensures
            n == self@.len(),
    {
        self.entries.len()
    }

    /// Where the address is listed, if it is.
    fn position(&self, addr: ClientAddr) -> (r: Option<usize>)
        requires
            distinct_addrs(self@),
        ensures
            match r {
                Some(i) => index_of(self@, addr) == Some(i as int),
                None => index_of(self@, addr) is None,
            },
    {
        let mut i: usize = 0;
        while i < self.entries.len()
            invariant
                i <= self.entries@.len(),
                distinct_addrs(self.entries@),
                forall|k: int| 0 <= k < i ==> self.entries@[k].addr != addr,
            decreases self.entries@.len() - i,
        {
            if self.entries[i].addr == addr {
                proof {
                    lemma_index_of_unique(self@, i as int);
                }
                return Some(i);
            }
            i = i + 1;
        }
        None
    }

    /// What is known of the client at `addr`, if it is listed.
    pub fn get(&self, addr: ClientAddr) -> (r: Option<ClientInfo>)
        requires
            distinct_addrs(self@),
        ensures
            match index_of(self@, addr) {
                Some(i) => r == Some(self@[i].info),
                None => r is None,
            },
    {
        match self.position(addr) {
            Some(i) => Some(self.entries[i].info),
            None => None,
        }
    }

    /// Counts a packet from the client at `addr`, heard at `now_ms`; a client
    /// not listed yet is added with no bytes counted. The count wraps around at
    /// `u64::MAX`.
    pub fn touch_sender(&mut self, addr: ClientAddr, now_ms: u64)
        requires
            distinct_addrs(old(self)@),
        ensures
            distinct_addrs(final(self)@),
            match index_of(old(self)@, addr) {
                Some(i) => final(self)@ == old(self)@.update(
                    i,
                    ClientEntry {
                        addr,
                        info: ClientInfo {
                            last_seen_ms: now_ms,
                            packet_count: old(self)@[i].info.packet_count.wrapping_add(1),
                            byte_count: old(self)@[i].info.byte_count,
                        },
                    },
                ),
                None => final(self)@ == old(self)@.push(
                    ClientEntry {
                        addr,
                        info: ClientInfo { last_seen_ms: now_ms, packet_count: 1, byte_count: 0 },
                    },
                ),
            },
    {
        match self.position(addr) {
            Some(i) => {
                let old_info = self.entries[i].info;
                let e = ClientEntry {
                    addr,
                    info: ClientInfo {
                        last_seen_ms: now_ms,
                        packet_count: old_info.packet_count.wrapping_add(1),
                        byte_count: old_info.byte_count,
                    },
                };
                self.entries.set(i, e);
            },
            None => {
                self.entries.push(
                    ClientEntry {
                        addr,
                        info: ClientInfo { last_seen_ms: now_ms, packet_count: 1, byte_count: 0 },
                    },
                );
            },
        }
    }

    /// Lists the client at `addr`, heard at `now_ms`: a new client is added
    /// with nothing counted, a known one has its time refreshed. Returns
    /// whether the client is new.
    pub fn register(&mut self, addr: ClientAddr, now_ms: u64) -> (is_new: bool)
        requires
            distinct_addrs(old(self)@),
        ensures
            distinct_addrs(final(self)@),
            is_new == !has_addr(old(self)@, addr),
            match index_of(old(self)@, addr) {
                Some(i) => final(self)@ == old(self)@.update(
                    i,
                    ClientEntry {
                        addr,
                        info: ClientInfo { last_seen_ms: now_ms, ..old(self)@[i].info },
                    },
                ),
                None => final(self)@ == old(self)@.push(
                    ClientEntry {
                        addr,
                        info: ClientInfo { last_seen_ms: now_ms, packet_count: 0, byte_count: 0 },
                    },
                ),
            },
    {
        match self.position(addr) {
            Some(i) => {
                let old_info = self.entries[i].info;
                let e = ClientEntry {
                    addr,
                    info: ClientInfo {
                        last_seen_ms: now_ms,
                        packet_count: old_info.packet_count,
                        byte_count: old_info.byte_count,
                    },
                };
                self.entries.set(i, e);
                false
            },
            None => {
                self.entries.push(
                    ClientEntry {
                        addr,
                        info: ClientInfo { last_seen_ms: now_ms, packet_count: 0, byte_count: 0 },
                    },
                );
                true
            },
        }
    }

    /// Counts `bytes` bytes sent to the client at `addr`, if it is listed. The
    /// counts wrap around at `u64::MAX`.
    pub fn count_sent(&mut self, addr: ClientAddr, bytes: usize)
        requires
            distinct_addrs(old(self)@),
        ensures
            distinct_addrs(final(self)@),
            match index_of(old(self)@, addr) {
                Some(i) => final(self)@ == old(self)@.update(
                    i,
                    ClientEntry {
                        addr,
                        info: ClientInfo {
                            last_seen_ms: old(self)@[i].info.last_seen_ms,
                            packet_count: old(self)@[i].info.packet_count.wrapping_add(1),
                            byte_count: old(self)@[i].info.byte_count.wrapping_add(bytes as u64),
                        },
                    },
                ),
                None => final(self)@ == old(self)@,
            },
    {
        match self.position(addr) {
            Some(i) => {
                let old_info = self.entries[i].info;
                let e = ClientEntry {
                    addr,
                    info: ClientInfo {
                        last_seen_ms: old_info.last_seen_ms,
                        packet_count: old_info.packet_count.wrapping_add(1),
                        byte_count: old_info.byte_count.wrapping_add(bytes as u64),
                    },
                };
                self.entries.set(i, e);
            },
            None => {},
        }
    }

    /// The listed addresses, in order.
    pub fn addrs(&self) -> (r: Vec<ClientAddr>)
        ensures
            r@ == self@.map_values(|e: ClientEntry| e.addr),
    {
        let mut r: Vec<ClientAddr> = Vec::new();
        let mut i: usize = 0;
        while i < self.entries.len()
            invariant
                i <= self.entries@.len(),
                r@ == self.entries@.take(i as int).map_values(|e: ClientEntry| e.addr),
            decreases self.entries@.len() - i,
        {
            r.push(self.entries[i].addr);
            i = i + 1;
            assert(r@ =~= self.entries@.take(i as int).map_values(|e: ClientEntry| e.addr));
        }
        assert(self.entries@.take(i as int) =~= self.entries@);
        r
    }

    /// Keeps the clients heard from less than `timeout_ms` before `now_ms`, in
    /// order; returns the others, in order.
    pub fn retain_active(&mut self, now_ms: u64, timeout_ms: u64) -> (removed: Vec<ClientEntry>)
        requires
            distinct_addrs(old(self)@),
        ensures
            distinct_addrs(final(self)@),
            final(self)@ == old(self)@.filter(active_at(now_ms, timeout_ms)),
            removed@ == old(self)@.filter(inactive_at(now_ms, timeout_ms)),
    {
        let ghost all = self.entries@;
        let mut kept: Vec<ClientEntry> = Vec::new();
        let mut removed: Vec<ClientEntry> = Vec::new();
        let mut i: usize = 0;
        while i < self.entries.len()
            invariant
                self.entries@ == all,
                distinct_addrs(all),
                i <= all.len(),
                kept@ == all.take(i as int).filter(active_at(now_ms, timeout_ms)),
                removed@ == all.take(i as int).filter(inactive_at(now_ms, timeout_ms)),
                distinct_addrs(kept@),
                forall|k: int|
                    0 <= k < kept@.len() ==> exists|j: int|
                        0 <= j < i && #[trigger] kept@[k] == all[j],
            decreases all.len() - i,
        {
            let e = self.entries[i];
            let elapsed: u64 = if now_ms >= e.info.last_seen_ms {
                now_ms - e.info.last_seen_ms
            } else {
                0
            };
            let ghost kept_before = kept@;
            if elapsed < timeout_ms {
                proof {
                    assert forall|k: int| 0 <= k < kept_before.len() implies kept_before[k].addr
                        != e.addr by {
                        let j = choose|j: int| 0 <= j < i && #[trigger] kept_before[k] == all[j];
                        assert(all[j].addr != all[i as int].addr);
                    }
                }
                kept.push(e);
            } else {
                removed.push(e);
            }
            proof {
                assert(is_active(e, now_ms, timeout_ms) == (elapsed < timeout_ms));
                assert(all.take(i + 1) =~= all.take(i as int).push(e));
                all.take(i as int).lemma_filter_push(e, active_at(now_ms, timeout_ms));
                all.take(i as int).lemma_filter_push(e, inactive_at(now_ms, timeout_ms));
                assert(all.take(i + 1).filter(active_at(now_ms, timeout_ms)) == (if is_active(e, now_ms, timeout_ms) {
                    all.take(i as int).filter(active_at(now_ms, timeout_ms)).push(e)
                } else {
                    all.take(i as int).filter(active_at(now_ms, timeout_ms))
                }));
                assert(all.take(i + 1).filter(inactive_at(now_ms, timeout_ms)) == (if !is_active(e, now_ms, timeout_ms) {
                    all.take(i as int).filter(inactive_at(now_ms, timeout_ms)).push(e)
                } else {
                    all.take(i as int).filter(inactive_at(now_ms, timeout_ms))
                }));
                assert forall|k: int| 0 <= k < kept@.len() implies exists|j: int|
                    0 <= j < i + 1 && #[trigger] kept@[k] == all[j] by {
                    if k < kept_before.len() {
                        assert(kept@[k] == kept_before[k]);
                        let j = choose|j: int| 0 <= j < i && #[trigger] kept_before[k] == all[j];
                        assert(kept@[k] == all[j]);
                    } else {
                        assert(kept@[k] == all[i as int]);
                    }
                }
            }
            i = i + 1;
        }
        assert(all.take(i as int) =~= all);
        self.entries = kept;
        removed
    }
}

/// The two client lists of the UDP bridge.
#[derive(Debug, Clone)]
pub struct UdpClientManager {
    tx_clients: ClientRegistry,
    rx_clients: ClientRegistry,
}

impl UdpClientManager {
    /// The clients that send data to be transmitted.
    pub closed spec fn tx_view(&self) -> Seq<ClientEntry> {
        self.tx_clients@
    }

    /// The clients registered to receive data.
    pub closed spec fn rx_view(&self) -> Seq<ClientEntry> {
        self.rx_clients@
    }

    /// Both lists are free of repeated addresses.
    pub open spec fn wf(&self) -> bool {
        distinct_addrs(self.tx_view()) && distinct_addrs(self.rx_view())
    }

    /// No client.
    pub fn new() -> (m: UdpClientManager)
        ensures
            m.wf(),
            m.tx_view() == Seq::<ClientEntry>::empty(),
            m.rx_view() == Seq::<ClientEntry>::empty(),
    {
        UdpClientManager { tx_clients: ClientRegistry::new(), rx_clients: ClientRegistry::new() }
    }

    /// Counts a datagram received from a sending client at `now_ms`.
    pub fn update_tx_client(&mut self, addr: ClientAddr, now_ms: u64)
        requires
            old(self).wf(),
        ensures
            final(self).wf(),
            final(self).rx_view() == old(self).rx_view(),
            match index_of(old(self).tx_view(), addr) {
                Some(i) => final(self).tx_view() == old(self).tx_view().update(
                    i,
                    ClientEntry {
                        addr,
                        info: ClientInfo {
                            last_seen_ms: now_ms,
                            packet_count: old(self).tx_view()[i].info.packet_count.wrapping_add(1),
                            byte_count: old(self).tx_view()[i].info.byte_count,
                        },
                    },
                ),
                None => final(self).tx_view() == old(self).tx_view().push(
                    ClientEntry {
                        addr,
                        info: ClientInfo { last_seen_ms: now_ms, packet_count: 1, byte_count: 0 },
                    },
                ),
            },
    {
        self.tx_clients.touch_sender(addr, now_ms);
    }

    /// Registers a receiving client heard from at `now_ms`; returns whether it is new.
    pub fn register_rx_client(&mut self, addr: ClientAddr, now_ms: u64) -> (is_new: bool)
        requires
            old(self).wf(),
        ensures
            final(self).wf(),
            final(self).tx_view() == old(self).tx_view(),
            is_new == !has_addr(old(self).rx_view(), addr),
            match index_of(old(self).rx_view(), addr) {
                Some(i) => final(self).rx_view() == old(self).rx_view().update(
                    i,
                    ClientEntry {
                        addr,
                        info: ClientInfo { last_seen_ms: now_ms, ..old(self).rx_view()[i].info },
                    },
                ),
                None => final(self).rx_view() == old(self).rx_view().push(
                    ClientEntry {
                        addr,
                        info: ClientInfo { last_seen_ms: now_ms, packet_count: 0, byte_count: 0 },
                    },
                ),
            },
    {
        self.rx_clients.register(addr, now_ms)
    }

    /// The addresses of the receiving clients.
    pub fn get_rx_clients(&self) -> (r: Vec<ClientAddr>)
        ensures
            r@ == self.rx_view().map_values(|e: ClientEntry| e.addr),
    {
        self.rx_clients.addrs()
    }

    /// Drops the clients of both lists that have been silent for
    /// `CLIENT_TIMEOUT_MS` or more at `now_ms`; returns those dropped from the
    /// sending list and from the receiving list.
    pub fn cleanup_inactive_clients(&mut self, now_ms: u64) -> (removed: (
        Vec<ClientEntry>,
        Vec<ClientEntry>,
    ))
        requires
            old(self).wf(),
        ensures
            final(self).wf(),
            final(self).tx_view() == old(self).tx_view().filter(active_at(now_ms, CLIENT_TIMEOUT_MS)),
            final(self).rx_view() == old(self).rx_view().filter(active_at(now_ms, CLIENT_TIMEOUT_MS)),
            removed.0@ == old(self).tx_view().filter(inactive_at(now_ms, CLIENT_TIMEOUT_MS)),
            removed.1@ == old(self).rx_view().filter(inactive_at(now_ms, CLIENT_TIMEOUT_MS)),
    {
        let tx_removed = self.tx_clients.retain_active(now_ms, CLIENT_TIMEOUT_MS);
        let rx_removed = self.rx_clients.retain_active(now_ms, CLIENT_TIMEOUT_MS);
        (tx_removed, rx_removed)
    }

    /// Counts `bytes` bytes forwarded to the receiving client at `addr`, if registered.
    pub fn update_rx_stats(&mut self, addr: ClientAddr, bytes: usize)
        requires
            old(self).wf(),
        ensures
            final(self).wf(),
            final(self).tx_view() == old(self).tx_view(),
            match index_of(old(self).rx_view(), addr) {
                Some(i) => final(self).rx_view() == old(self).rx_view().update(
                    i,
                    ClientEntry {
                        addr,
                        info: ClientInfo {
                            last_seen_ms: old(self).rx_view()[i].info.last_seen_ms,
                            packet_count: old(self).rx_view()[i].info.packet_count.wrapping_add(1),
                            byte_count: old(self).rx_view()[i].info.byte_count.wrapping_add(
                                bytes as u64,
                            ),
                        },
                    },
                ),
                None => final(self).rx_view() == old(self).rx_view(),
            },
    {
        self.rx_clients.count_sent(addr, bytes);
    }

    /// What is known of the sending client at `addr`, if it is listed.
    pub fn tx_client_info(&self, addr: ClientAddr) -> (r: Option<ClientInfo>)
        requires
            self.wf(),
        ensures
            match index_of(self.tx_view(), addr) {
                Some(i) => r == Some(self.tx_view()[i].info),
                None => r is None,
            },
    {
        self.tx_clients.get(addr)
    }

    /// What is known of the receiving client at `addr`, if it is registered.
    pub fn rx_client_info(&self, addr: ClientAddr) -> (r: Option<ClientInfo>)
        requires
            self.wf(),
        ensures
            match index_of(self.rx_view(), addr) {
                Some(i) => r == Some(self.rx_view()[i].info),
                None => r is None,
            },
    {
        self.rx_clients.get(addr)
    }

    /// The number of sending and of receiving clients.
    pub fn get_stats(&self) -> (counts: (usize, usize))
        ensures
            counts.0 == self.tx_view().len(),
            counts.1 == self.rx_view().len(),
    {
        (self.tx_clients.len(), self.rx_clients.len())
    }
}

} // verus!
