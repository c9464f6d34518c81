//! Network addresses: classification, merging of interface records, and the
//! selection of one address for a site.

use vstd::prelude::*;

verus! {

/// Semantic category of a network address.
#[derive(Clone, Copy, Debug, PartialEq, Eq, Structural)]
pub enum AddressType {
    Public,
    Private,
    Loopback,
    Multicast,
    Unspecified,
    Broadcast,
    LinkLocal,
    Other,
}

/// A raw address as enumerated from a network interface: its bytes and its
/// textual form.
#[derive(Debug)]
pub enum RawAddr {
    V4([u8; 4], String),
    V6([u8; 16], String),
}

pub open spec fn v4_is_loopback(o: Seq<u8>) -> bool {
    o[0] == 127
}

pub open spec fn v4_is_multicast(o: Seq<u8>) -> bool {
    224 <= o[0] <= 239
}

pub open spec fn v4_is_unspecified(o: Seq<u8>) -> bool {
    o[0] == 0 && o[1] == 0 && o[2] == 0 && o[3] == 0
}

pub open spec fn v4_is_private(o: Seq<u8>) -> bool {
    o[0] == 10 || (o[0] == 172 && 16 <= o[1] <= 31) || (o[0] == 192 && o[1] == 168)
}

pub open spec fn v4_is_broadcast(o: Seq<u8>) -> bool {
    o[0] == 255 && o[1] == 255 && o[2] == 255 && o[3] == 255
}

pub open spec fn v4_is_link_local(o: Seq<u8>) -> bool {
    o[0] == 169 && o[1] == 254
}

/// Category of an IPv4 address; the first test that matches wins.
pub open spec fn v4_category(o: Seq<u8>) -> AddressType {
    if v4_is_loopback(o) {
        AddressType::Loopback
    } else if v4_is_multicast(o) {
        AddressType::Multicast
    } else if v4_is_unspecified(o) {
        AddressType::Unspecified
    } else if v4_is_private(o) {
        AddressType::Private
    } else if v4_is_broadcast(o) {
        AddressType::Broadcast
    } else if v4_is_link_local(o) {
        AddressType::LinkLocal
    } else {
        AddressType::Public
    }
}

/// The bytes `from..to` of `o` are all zero.
pub open spec fn zero_between(o: Seq<u8>, from: int, to: int) -> bool {
    forall|i: int| from <= i < to ==> o[i] == 0
}

pub open spec fn v6_is_loopback(o: Seq<u8>) -> bool {
    zero_between(o, 0, 15) && o[15] == 1
}

pub open spec fn v6_is_multicast(o: Seq<u8>) -> bool {
    o[0] == 0xff
}

pub open spec fn v6_is_unspecified(o: Seq<u8>) -> bool {
    zero_between(o, 0, 16)
}

/// `fc00::/7`
pub open spec fn v6_is_unique_local(o: Seq<u8>) -> bool {
    o[0] == 0xfc || o[0] == 0xfd
}

/// `2000::/3`, tested on the first byte.
pub open spec fn v6_is_global_unicast(o: Seq<u8>) -> bool {
    0x20 <= o[0] <= 0x3f
}

/// Category of an IPv6 address; the first test that matches wins.
pub open spec fn v6_category(o: Seq<u8>) -> AddressType {
    if v6_is_loopback(o) {
        AddressType::Loopback
    } else if v6_is_multicast(o) {
        AddressType::Multicast
    } else if v6_is_unspecified(o) {
        AddressType::Unspecified
    } else if v6_is_unique_local(o) {
        AddressType::Private
    } else if v6_is_global_unicast(o) {
        AddressType::Public
    } else {
        AddressType::Other
    }
}

pub open spec fn category(a: RawAddr) -> AddressType {
    match a {
        RawAddr::V4(o, _) => v4_category(o@),
        RawAddr::V6(o, _) => v6_category(o@),
    }
}

fn zero_run(o: &[u8; 16], from: usize, to: usize) -> (r: bool)
    requires
        from <= to <= 16,
    ensures
        r == zero_between(o@, from as int, to as int),
{
    let mut i: usize = from;
    while i < to
        invariant
            from <= i <= to <= 16,
            zero_between(o@, from as int, i as int),
        decreases to - i,
    {
        if o[i] != 0 {
            return false;
        }
        i = i + 1;
    }
    true
}

impl AddressType {
    /// Classifies an address. Total and pure: the result depends on the
    /// address bytes alone.
    pub fn declare_address_type(addr: &RawAddr) -> (r: AddressType)
        ensures
            r == category(*addr),
    {
        match addr {
            RawAddr::V4(o, _) => {
                if o[0] == 127 {
                    AddressType::Loopback
                } else if o[0] >= 224 && o[0] <= 239 {
                    AddressType::Multicast
                } else if o[0] == 0 && o[1] == 0 && o[2] == 0 && o[3] == 0 {
                    AddressType::Unspecified
                } else if o[0] == 10 || (o[0] == 172 && o[1] >= 16 && o[1] <= 31) || (o[0] == 192
                    && o[1] == 168) {
                    AddressType::Private
                } else if o[0] == 255 && o[1] == 255 && o[2] == 255 && o[3] == 255 {
                    AddressType::Broadcast
                } else if o[0] == 169 && o[1] == 254 {
                    AddressType::LinkLocal
                } else {
                    AddressType::Public
                }
            },
            RawAddr::V6(o, _) => {
                if zero_run(o, 0, 15) && o[15] == 1 {
                    AddressType::Loopback
                } else if o[0] == 0xff {
                    AddressType::Multicast
                } else if zero_run(o, 0, 16) {
                    AddressType::Unspecified
                } else if o[0] == 0xfc || o[0] == 0xfd {
                    AddressType::Private
                } else if o[0] >= 0x20 && o[0] <= 0x3f {
                    AddressType::Public
                } else {
                    AddressType::Other
                }
            },
        }
    }
}


/// IP version of an address.
#[derive(Clone, Copy, Debug, PartialEq, Eq, Structural)]
pub enum AddressVersion {
    V4,
    V6,
}

impl AddressVersion {
    /// The configuration spelling of the version.
    pub fn as_str(&self) -> (r: &'static str)
        ensures
            *self == AddressVersion::V4 ==> r@ == "v4"@,
            *self == AddressVersion::V6 ==> r@ == "v6"@,
    {
        match self {
            AddressVersion::V4 => "v4",
            AddressVersion::V6 => "v6",
        }
    }
}

/// An address of an interface in textual form, with its category.
#[derive(Debug)]
pub enum IPAddress {
    V4(String, AddressType),
    V6(String, AddressType),
}

pub open spec fn ip_of(a: RawAddr) -> IPAddress {
    match a {
        RawAddr::V4(_, t) => IPAddress::V4(t, category(a)),
        RawAddr::V6(_, t) => IPAddress::V6(t, category(a)),
    }
}

impl IPAddress {
    /// Textual form and category of a raw address.
    pub fn from_raw(ip: &RawAddr) -> (r: IPAddress)
        ensures
            r == ip_of(*ip),
    {
        let kind = AddressType::declare_address_type(ip);
        match ip {
            RawAddr::V4(_, t) => IPAddress::V4(t.clone(), kind),
            RawAddr::V6(_, t) => IPAddress::V6(t.clone(), kind),
        }
    }

    pub open spec fn version(self) -> AddressVersion {
        match self {
            IPAddress::V4(..) => AddressVersion::V4,
            IPAddress::V6(..) => AddressVersion::V6,
        }
    }

    pub open spec fn kind(self) -> AddressType {
        match self {
            IPAddress::V4(_, k) => k,
            IPAddress::V6(_, k) => k,
        }
    }

    pub open spec fn text(self) -> String {
        match self {
            IPAddress::V4(t, _) => t,
            IPAddress::V6(t, _) => t,
        }
    }
}

/// One interface record: a name and the addresses bound to it.
#[derive(Debug)]
pub struct Interface {
    pub name: String,
    pub addr: Vec<RawAddr>,
}

/// All addresses of the records named `name`, in enumeration order.
pub open spec fn addrs_named(s: Seq<Interface>, name: Seq<char>) -> Seq<RawAddr>
    decreases s.len(),
{
    if s.len() == 0 {
        Seq::empty()
    } else {
        addrs_named(s.drop_last(), name) + if s.last().name@ == name {
            s.last().addr@
        } else {
            Seq::empty()
        }
    }
}

/// Some record of `s` is named `name`.
pub open spec fn has_name(s: Seq<Interface>, name: Seq<char>) -> bool {
    exists|i: int| 0 <= i < s.len() && #[trigger] s[i].name@ == name
}

/// `merged` holds one record per name of `records`, and each holds the union
/// of the addresses of the records of that name.
pub open spec fn is_merge_of(merged: Seq<Interface>, records: Seq<Interface>) -> bool {
    &&& forall|i: int, j: int|
        0 <= i < j < merged.len() ==> #[trigger] merged[i].name@ != #[trigger] merged[j].name@
    &&& forall|i: int| 0 <= i < merged.len() ==> has_name(records, #[trigger] merged[i].name@)
    &&& forall|i: int| 0 <= i < records.len() ==> has_name(merged, #[trigger] records[i].name@)
    &&& forall|i: int|
        0 <= i < merged.len() ==> #[trigger] merged[i].addr@ == addrs_named(
            records,
            merged[i].name@,
        )
}

proof fn lemma_addrs_named_push(s: Seq<Interface>, x: Interface, name: Seq<char>)
    ensures
        addrs_named(s.push(x), name) == addrs_named(s, name) + if x.name@ == name {
            x.addr@
        } else {
            Seq::empty()
        },
{
    assert(s.push(x).drop_last() =~= s);
}

proof fn lemma_addrs_named_absent(s: Seq<Interface>, name: Seq<char>)
    requires
        !has_name(s, name),
    ensures
        addrs_named(s, name) == Seq::<RawAddr>::empty(),
    decreases s.len(),
{
    if s.len() > 0 {
        let t = s.drop_last();
        assert(!has_name(t, name)) by {
            if has_name(t, name) {
                let i = choose|i: int| 0 <= i < t.len() && #[trigger] t[i].name@ == name;
                assert(s[i].name@ == name);
            }
        }
        lemma_addrs_named_absent(t, name);
        assert(s[s.len() - 1].name@ != name);
        assert(addrs_named(s, name) =~= Seq::<RawAddr>::empty());
    }
}

/// Merges the records that share a name into one, appending their addresses
/// in enumeration order; the first record of a name fixes its position.
pub fn merge_interfaces(records: Vec<Interface>) -> (r: Vec<Interface>)
    ensures
        is_merge_of(r@, records@),
{
    let ghost all = records@;
    let mut rest = records;
    let mut merged: Vec<Interface> = Vec::new();
    let mut k: usize = 0;
    let n: usize = rest.len();
    while rest.len() > 0
        invariant
            k + rest@.len() == n == all.len(),
            rest@ == all.skip(k as int),
            is_merge_of(merged@, all.take(k as int)),
        decreases rest@.len(),
    {
        let ghost done = all.take(k as int);
        let mut x = rest.remove(0);
        let ghost xv = x;
        assert(x == all[k as int]);
        assert(all.take(k + 1) =~= done.push(x));
        let mut j: usize = 0;
        let mut found = false;
        while j < merged.len() && !found
            invariant
                0 <= j <= merged@.len(),
                found ==> j < merged@.len() && merged@[j as int].name@ == x.name@,
                forall|i: int| 0 <= i < j ==> #[trigger] merged@[i].name@ != x.name@,
            decreases merged@.len() - j + if found { 0int } else { 1int },
        {
            if merged[j].name == x.name {
                found = true;
            } else {
                j = j + 1;
            }
        }
        let ghost old_merged = merged@;
        proof {
            assert forall|name: Seq<char>| #![auto]
                addrs_named(done.push(x), name) == addrs_named(done, name) + if x.name@ == name {
                    x.addr@
                } else {
                    Seq::empty()
                } by {
                lemma_addrs_named_push(done, x, name);
            }
        }
        if found {
            let mut e = merged.remove(j);
            e.addr.append(&mut x.addr);
            merged.insert(j, e);
            proof {
                assert(merged@ =~= old_merged.update(j as int, merged@[j as int]));
                assert(merged@[j as int].addr@ == old_merged[j as int].addr@ + xv.addr@);
                let nd = done.push(xv);
                lemma_addrs_named_push(done, xv, xv.name@);
                assert forall|i: int| 0 <= i < nd.len() implies has_name(
                    merged@,
                    #[trigger] nd[i].name@,
                ) by {
                    if i < done.len() {
                        assert(done[i] == nd[i]);
                        let m = choose|m: int|
                            0 <= m < old_merged.len() && #[trigger] old_merged[m].name@
                                == done[i].name@;
                        assert(merged@[m].name@ == nd[i].name@);
                    } else {
                        assert(merged@[j as int].name@ == nd[i].name@);
                    }
                }
                assert forall|i: int| 0 <= i < merged@.len() implies has_name(
                    nd,
                    #[trigger] merged@[i].name@,
                ) by {
                    assert(merged@[i].name@ == old_merged[i].name@);
                    let m = choose|m: int|
                        0 <= m < done.len() && #[trigger] done[m].name@ == old_merged[i].name@;
                    assert(nd[m] == done[m]);
                }
                assert forall|i: int| 0 <= i < merged@.len() implies #[trigger] merged@[i].addr@
                    == addrs_named(nd, merged@[i].name@) by {
                    if i != j {
                        assert(merged@[i] == old_merged[i]);
                        assert(old_merged[i].name@ != old_merged[j as int].name@);
                    }
                }
                assert(is_merge_of(merged@, nd));
            }
        } else {
            proof {
                assert(!has_name(done, x.name@)) by {
                    if has_name(done, x.name@) {
                        let m = choose|m: int|
                            0 <= m < done.len() && #[trigger] done[m].name@ == x.name@;
                        let w = choose|w: int|
                            0 <= w < old_merged.len() && #[trigger] old_merged[w].name@
                                == done[m].name@;
                    }
                }
                lemma_addrs_named_absent(done, x.name@);
            }
            let ghost xa = x.addr@;
            let ghost xn = x.name@;
            merged.push(x);
            proof {
                let nd = done.push(all[k as int]);
                assert(nd =~= all.take(k + 1));
                assert(merged@.last().addr@ == xa);
                assert(addrs_named(nd, xn) =~= xa);
                assert forall|i: int| 0 <= i < nd.len() implies has_name(
                    merged@,
                    #[trigger] nd[i].name@,
                ) by {
                    if i < done.len() {
                        assert(done[i] == nd[i]);
                        let m = choose|m: int|
                            0 <= m < old_merged.len() && #[trigger] old_merged[m].name@
                                == done[i].name@;
                        assert(merged@[m].name@ == nd[i].name@);
                    } else {
                        assert(merged@[old_merged.len() as int].name@ == nd[i].name@);
                    }
                }
                assert forall|i: int| 0 <= i < merged@.len() implies has_name(
                    nd,
                    #[trigger] merged@[i].name@,
                ) by {
                    if i < old_merged.len() {
                        assert(merged@[i] == old_merged[i]);
                        let m = choose|m: int|
                            0 <= m < done.len() && #[trigger] done[m].name@ == old_merged[i].name@;
                        assert(nd[m] == done[m]);
                    } else {
                        assert(nd[done.len() as int].name@ == xn);
                    }
                }
                assert forall|i: int| 0 <= i < merged@.len() implies #[trigger] merged@[i].addr@
                    == addrs_named(nd, merged@[i].name@) by {
                    if i < old_merged.len() {
                        assert(merged@[i] == old_merged[i]);
                    }
                }
                assert forall|i: int, m: int|
                    0 <= i < m < merged@.len() implies #[trigger] merged@[i].name@
                    != #[trigger] merged@[m].name@ by {
                    if m < old_merged.len() {
                        assert(merged@[i] == old_merged[i]);
                        assert(merged@[m] == old_merged[m]);
                    } else {
                        assert(merged@[i] == old_merged[i]);
                    }
                }
                assert(is_merge_of(merged@, nd));
            }
        }
        k = k + 1;
        proof {
            assert(rest@ =~= all.skip(k as int));
        }
    }
    proof {
        assert(all.take(n as int) =~= all);
    }
    merged
}


/// The addresses of `addrs` in textual form, with their categories.
pub open spec fn ips_of(addrs: Seq<RawAddr>) -> Seq<IPAddress> {
    addrs.map_values(|a: RawAddr| ip_of(a))
}

proof fn lemma_ips_of_concat(a: Seq<RawAddr>, b: Seq<RawAddr>)
    ensures
        ips_of(a + b) == ips_of(a) + ips_of(b),
{
    assert(ips_of(a + b) =~= ips_of(a) + ips_of(b));
}

/// The addresses of every record named `interface`, in enumeration order.
pub fn get_interface_ips(interfaces: &Vec<Interface>, interface: &str) -> (r: Vec<IPAddress>)
    ensures
        r@ == ips_of(addrs_named(interfaces@, interface@)),
{
    let mut ips: Vec<IPAddress> = Vec::new();
    let name = interface.to_owned();
    let mut i: usize = 0;
    while i < interfaces.len()
        invariant
            0 <= i <= interfaces@.len(),
            name@ == interface@,
            ips@ == ips_of(addrs_named(interfaces@.take(i as int), interface@)),
        decreases interfaces@.len() - i,
    {
        let itf = &interfaces[i];
        let ghost before = ips@;
        proof {
            assert(interfaces@.take(i + 1) =~= interfaces@.take(i as int).push(*itf));
            lemma_addrs_named_push(interfaces@.take(i as int), *itf, interface@);
        }
        if itf.name == name {
            let mut m: usize = 0;
            while m < itf.addr.len()
                invariant
                    0 <= m <= itf.addr@.len(),
                    i < interfaces@.len(),
                    itf == &interfaces@[i as int],
                    ips@ == before + ips_of(itf.addr@.take(m as int)),
                decreases itf.addr@.len() - m,
            {
                let ip = IPAddress::from_raw(&itf.addr[m]);
                ips.push(ip);
                proof {
                    assert(ips_of(itf.addr@.take(m + 1)) =~= ips_of(itf.addr@.take(m as int)).push(
                        ip,
                    ));
                }
                m = m + 1;
            }
            proof {
                assert(itf.addr@.take(m as int) =~= itf.addr@);
                lemma_ips_of_concat(addrs_named(interfaces@.take(i as int), interface@), itf.addr@);
            }
        } else {
            proof {
                assert(addrs_named(interfaces@.take(i as int), interface@) + Seq::<RawAddr>::empty()
                    =~= addrs_named(interfaces@.take(i as int), interface@));
            }
        }
        i = i + 1;
    }
    proof {
        assert(interfaces@.take(i as int) =~= interfaces@);
    }
    ips
}

/// An address of the requested version and category.
pub open spec fn wanted(ip: IPAddress, version: AddressVersion, kind: AddressType) -> bool {
    ip.version() == version && ip.kind() == kind
}

/// The addresses of `s` of the requested version and category, in order.
pub open spec fn matching(s: Seq<IPAddress>, version: AddressVersion, kind: AddressType) -> Seq<
    IPAddress,
>
    decreases s.len(),
{
    if s.len() == 0 {
        Seq::empty()
    } else {
        matching(s.drop_last(), version, kind) + if wanted(s.last(), version, kind) {
            seq![s.last()]
        } else {
            Seq::empty()
        }
    }
}

/// Why no address could be selected.
#[derive(Clone, Copy, Debug, PartialEq, Eq, Structural)]
pub enum SelectError {
    /// Fewer addresses match than the index asks for.
    InsufficientAddresses,
}

fn copy_ip(ip: &IPAddress) -> (r: IPAddress)
    ensures
        r == *ip,
{
    match ip {
        IPAddress::V4(t, k) => IPAddress::V4(t.clone(), *k),
        IPAddress::V6(t, k) => IPAddress::V6(t.clone(), *k),
    }
}

/// The address at `index` among those of `ips` of the requested version and
/// category.
pub fn select_ip(ips: &Vec<IPAddress>, version: AddressVersion, kind: AddressType, index: usize) -> (r:
    Result<IPAddress, SelectError>)
    ensures
        match r {
            Ok(ip) => index < matching(ips@, version, kind).len() && ip == matching(
                ips@,
                version,
                kind,
            )[index as int],
            Err(e) => e == SelectError::InsufficientAddresses && index >= matching(
                ips@,
                version,
                kind,
            ).len(),
        },
{
    let mut seen: usize = 0;
    let mut i: usize = 0;
    while i < ips.len()
        invariant
            0 <= i <= ips@.len(),
            seen == matching(ips@.take(i as int), version, kind).len(),
            seen <= index,
            forall|j: int|
                0 <= j < seen ==> #[trigger] matching(ips@.take(i as int), version, kind)[j]
                    == matching(ips@, version, kind)[j],
        decreases ips@.len() - i,
    {
        let ip = &ips[i];
        let ghost pre = ips@.take(i as int);
        proof {
            assert(ips@.take(i + 1).drop_last() =~= pre);
            lemma_matching_prefix(ips@, i as int + 1, version, kind);
        }
        let hit = match ip {
            IPAddress::V4(_, k) => version == AddressVersion::V4 && *k == kind,
            IPAddress::V6(_, k) => version == AddressVersion::V6 && *k == kind,
        };
        if hit {
            if seen == index {
                proof {
                    assert(matching(ips@.take(i + 1), version, kind)[seen as int] == *ip);
                }
                return Ok(copy_ip(ip));
            }
            seen = seen + 1;
        }
        i = i + 1;
    }
    proof {
        assert(ips@.take(i as int) =~= ips@);
    }
    Err(SelectError::InsufficientAddresses)
}

/// The addresses of the records named `interface` of the requested version
/// and category, in enumeration order.
pub open spec fn candidates(
    interfaces: Seq<Interface>,
    interface: Seq<char>,
    version: AddressVersion,
    kind: AddressType,
) -> Seq<IPAddress> {
    matching(ips_of(addrs_named(interfaces, interface)), version, kind)
}

/// Selects the address at `index` among the addresses of the interface named
/// `interface` of the requested version and category.
pub fn select_address(
    interfaces: &Vec<Interface>,
    interface: &str,
    version: AddressVersion,
    kind: AddressType,
    index: usize,
) -> (r: Result<IPAddress, SelectError>)
    ensures
        match r {
            Ok(ip) => index < candidates(interfaces@, interface@, version, kind).len() && ip
                == candidates(interfaces@, interface@, version, kind)[index as int],
            Err(e) => e == SelectError::InsufficientAddresses && index >= candidates(
                interfaces@,
                interface@,
                version,
                kind,
            ).len(),
        },
{
    let ips = get_interface_ips(interfaces, interface);
    select_ip(&ips, version, kind, index)
}

proof fn lemma_addrs_named_unique(s: Seq<Interface>, name: Seq<char>, m: int)
    requires
        0 <= m < s.len(),
        s[m].name@ == name,
        forall|i: int, j: int|
            0 <= i < j < s.len() ==> #[trigger] s[i].name@ != #[trigger] s[j].name@,
    ensures
        addrs_named(s, name) == s[m].addr@,
    decreases s.len(),
{
    let t = s.drop_last();
    if m == s.len() - 1 {
        assert(!has_name(t, name)) by {
            if has_name(t, name) {
                let i = choose|i: int| 0 <= i < t.len() && #[trigger] t[i].name@ == name;
                assert(s[i].name@ == s[m].name@);
            }
        }
        lemma_addrs_named_absent(t, name);
        assert(addrs_named(s, name) =~= s[m].addr@);
    } else {
        lemma_addrs_named_unique(t, name, m);
        assert(s.last().name@ != name);
        assert(addrs_named(s, name) =~= s[m].addr@);
    }
}

/// Merging changes no selection: the addresses that a site can select on
/// merged records are those it can select on the records as enumerated.
pub proof fn lemma_merge_keeps_candidates(
    merged: Seq<Interface>,
    records: Seq<Interface>,
    interface: Seq<char>,
    version: AddressVersion,
    kind: AddressType,
)
    requires
        is_merge_of(merged, records),
    ensures
        candidates(merged, interface, version, kind) == candidates(
            records,
            interface,
            version,
            kind,
        ),
{
    if has_name(merged, interface) {
        let m = choose|m: int| 0 <= m < merged.len() && #[trigger] merged[m].name@ == interface;
        lemma_addrs_named_unique(merged, interface, m);
    } else {
        lemma_addrs_named_absent(merged, interface);
        assert(!has_name(records, interface)) by {
            if has_name(records, interface) {
                let i = choose|i: int| 0 <= i < records.len() && #[trigger] records[i].name@
                    == interface;
                assert(has_name(merged, records[i].name@));
            }
        }
        lemma_addrs_named_absent(records, interface);
    }
}

proof fn lemma_matching_prefix(
    s: Seq<IPAddress>,
    n: int,
    version: AddressVersion,
    kind: AddressType,
)
    requires
        0 <= n <= s.len(),
    ensures
        matching(s.take(n), version, kind).len() <= matching(s, version, kind).len(),
        forall|j: int|
            0 <= j < matching(s.take(n), version, kind).len() ==> #[trigger] matching(
                s.take(n),
                version,
                kind,
            )[j] == matching(s, version, kind)[j],
    decreases s.len() - n,
{
    if n == s.len() {
        assert(s.take(n) =~= s);
    } else {
        lemma_matching_prefix(s, n + 1, version, kind);
        assert(s.take(n + 1).drop_last() =~= s.take(n));
        let short = matching(s.take(n), version, kind);
        let long = matching(s.take(n + 1), version, kind);
        assert forall|j: int| 0 <= j < short.len() implies #[trigger] short[j] == long[j] by {}
    }
}

} // verus!
