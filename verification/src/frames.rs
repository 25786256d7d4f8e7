//! Codecs for item lists, loot and encounter records, and the four framed
//! message families of the protocol. The module ends with the round-trip
//! lemmas: decoding a frame encoded from any well-formed message yields
//! that message back.

use crate::codec::{
    dec_enemy, dec_error, dec_item, dec_login, dec_player, enc_enemy, enc_error, enc_item,
    enc_login, enc_player, lemma_dec_enc_enemy, lemma_dec_enc_error, lemma_dec_enc_item,
    lemma_dec_enc_login, lemma_dec_enc_player, sdec_enemy, sdec_error, sdec_item, sdec_login,
    sdec_player, spec_enc_enemy, spec_enc_error, spec_enc_item, spec_enc_login, spec_enc_player,
};
use crate::messages::{
    wf_items, ClientEvent, ClientEventV, EncounterData, EncounterDataV, EntryPoint, EntryPointV,
    EntryResponse, EntryResponseV, ItemData, ItemDataV, LootData, LootDataV, ServerEvent,
    ServerEventV,
};
use crate::wire::{
    dec_bool, dec_byte, dec_str, dec_u32, dec_u64, enc_bool, enc_byte, enc_str, enc_u32, enc_u64,
    lemma_dec_enc_bool, lemma_dec_enc_byte, lemma_dec_enc_str, lemma_dec_enc_u32,
    lemma_dec_enc_u64, lemma_subrange_split, sdec_bool, sdec_byte, sdec_str, sdec_u32, sdec_u64,
    spec_enc_bool, spec_enc_str, DecodeError,
};
use vstd::bytes::{spec_u32_to_le_bytes, spec_u64_to_le_bytes};
use vstd::prelude::*;

verus! {

pub open spec fn spec_enc_items(items: Seq<ItemDataV>) -> Seq<u8>
    decreases items.len(),
{
    if items.len() == 0 {
        Seq::empty()
    } else {
        spec_enc_item(items[0]) + spec_enc_items(items.drop_first())
    }
}

pub open spec fn sdec_items(b: Seq<u8>, i: int, n: u64) -> Option<(Seq<ItemDataV>, int)>
    decreases n,
{
    if n == 0 {
        Some((Seq::empty(), i))
    } else {
        match sdec_item(b, i) {
            Some((v, j)) => match sdec_items(b, j, (n - 1) as u64) {
                Some((vs, k)) => Some((seq![v] + vs, k)),
                None => None,
            },
            None => None,
        }
    }
}

/// Appending one item to a sequence appends its encoding.
pub proof fn lemma_enc_items_snoc(s: Seq<ItemDataV>, v: ItemDataV)
    ensures
        spec_enc_items(s.push(v)) == spec_enc_items(s) + spec_enc_item(v),
    decreases s.len(),
{
    if s.len() == 0 {
        assert(s.push(v)[0] == v);
        assert(s.push(v).drop_first() =~= Seq::<ItemDataV>::empty());
        assert(spec_enc_items(s.push(v)) == spec_enc_item(v) + spec_enc_items(
            Seq::<ItemDataV>::empty(),
        ));
        assert(spec_enc_items(s.push(v)) =~= spec_enc_items(s) + spec_enc_item(v));
    } else {
        assert(s.push(v)[0] == s[0]);
        assert(s.push(v).drop_first() =~= s.drop_first().push(v));
        lemma_enc_items_snoc(s.drop_first(), v);
        assert(spec_enc_items(s.push(v)) == spec_enc_item(s[0]) + (spec_enc_items(s.drop_first())
            + spec_enc_item(v)));
        assert(spec_enc_items(s.push(v)) =~= spec_enc_items(s) + spec_enc_item(v));
    }
}

pub fn enc_items(out: &mut Vec<u8>, items: &Vec<ItemData>)
    requires
        wf_items(items.deep_view()),
    ensures
        final(out)@ == old(out)@ + spec_enc_items(items.deep_view()),
{
    let ghost iv = items.deep_view();
    let mut k: usize = 0;
    while k < items.len()
        invariant
            k <= items.len(),
            iv == items.deep_view(),
            iv.len() == items.len(),
            wf_items(iv),
            out@ == old(out)@ + spec_enc_items(iv.take(k as int)),
        decreases items.len() - k,
    {
        enc_item(out, &items[k]);
        proof {
            lemma_enc_items_snoc(iv.take(k as int), iv[k as int]);
            assert(iv.take(k as int).push(iv[k as int]) =~= iv.take(k as int + 1));
        }
        k = k + 1;
    }
    proof {
        assert(iv.take(items.len() as int) =~= iv);
    }
}

pub fn dec_items(b: &[u8], i: usize, n: u64) -> (r: Result<(Vec<ItemData>, usize), DecodeError>)
    requires
        i <= b@.len(),
    ensures
        match r {
            Ok(p) => {
                &&& sdec_items(b@, i as int, n) matches Some(q)
                &&& q.0 == p.0.deep_view()
                &&& q.1 == p.1 as int
                &&& p.1 <= b@.len()
                &&& wf_items(p.0.deep_view())
            },
            Err(_) => sdec_items(b@, i as int, n) is None,
        },
{
    let mut acc: Vec<ItemData> = Vec::new();
    let mut j: usize = i;
    let mut k: u64 = 0;
    proof {
        assert(acc.deep_view() =~= Seq::<ItemDataV>::empty());
    }
    while k < n
        invariant
            k <= n,
            j <= b@.len(),
            acc.deep_view().len() == k,
            forall|m: int| 0 <= m < acc.deep_view().len() ==> (#[trigger] acc.deep_view()[m]).wf(),
            sdec_items(b@, i as int, n) == (match sdec_items(b@, j as int, (n - k) as u64) {
                Some((vs, m)) => Some((acc.deep_view() + vs, m)),
                None => None,
            }),
        decreases n - k,
    {
        let ghost acc0 = acc.deep_view();
        let (d, j2) = match dec_item(b, j) {
            Ok(p) => p,
            Err(e) => {
                return Err(e);
            },
        };
        acc.push(d);
        proof {
            assert(acc.deep_view() =~= acc0.push(d@));
            assert forall|m: int| 0 <= m < acc.deep_view().len() implies (#[trigger] acc.deep_view()[m]).wf() by {
                if m < acc0.len() {
                    assert(acc0[m].wf());
                } else {
                    assert(acc.deep_view()[m] == d@);
                }
            }
            let rest = (n - k - 1) as u64;
            match sdec_items(b@, j2 as int, rest) {
                Some((vs, m)) => {
                    assert(sdec_items(b@, j as int, (n - k) as u64) == Some(
                        (seq![d@] + vs, m),
                    ));
                    assert(acc0 + (seq![d@] + vs) =~= acc0.push(d@) + vs);
                },
                None => {
                    assert(sdec_items(b@, j as int, (n - k) as u64) is None);
                },
            }
        }
        j = j2;
        k = k + 1;
    }
    let count: usize = acc.len();
    proof {
        assert(acc.deep_view().len() == count as int);
        assert(acc.deep_view() + Seq::<ItemDataV>::empty() =~= acc.deep_view());
    }
    Ok((acc, j))
}

/// Decoding an encoded item list in place recovers it.
pub proof fn lemma_dec_enc_items(b: Seq<u8>, i: int, items: Seq<ItemDataV>)
    requires
        0 <= i,
        wf_items(items),
        i + spec_enc_items(items).len() <= b.len(),
        b.subrange(i, i + spec_enc_items(items).len()) == spec_enc_items(items),
    ensures
        sdec_items(b, i, items.len() as u64) == Some((items, i + spec_enc_items(items).len())),
    decreases items.len(),
{
    if items.len() == 0 {
        assert(items =~= Seq::<ItemDataV>::empty());
    } else {
        let hd = spec_enc_item(items[0]);
        let tl = spec_enc_items(items.drop_first());
        lemma_subrange_split(b, i, hd, tl);
        lemma_dec_enc_item(b, i, items[0]);
        assert(wf_items(items.drop_first()));
        lemma_dec_enc_items(b, i + hd.len(), items.drop_first());
        assert((items.len() as u64 - 1) as u64 == items.drop_first().len() as u64);
        assert(seq![items[0]] + items.drop_first() =~= items);
    }
}

pub open spec fn spec_enc_loot(v: LootDataV) -> Seq<u8> {
    spec_u64_to_le_bytes(v.items.len() as u64) + spec_enc_items(v.items) + spec_u32_to_le_bytes(
        v.exp,
    )
}

pub open spec fn sdec_loot(b: Seq<u8>, i: int) -> Option<(LootDataV, int)> {
    match sdec_u64(b, i) {
        Some((n, j1)) => match sdec_items(b, j1, n) {
            Some((items, j2)) => match sdec_u32(b, j2) {
                Some((exp, j3)) => Some((LootDataV { items, exp }, j3)),
                None => None,
            },
            None => None,
        },
        None => None,
    }
}

pub fn enc_loot(out: &mut Vec<u8>, l: &LootData)
    requires
        l@.wf(),
    ensures
        final(out)@ == old(out)@ + spec_enc_loot(l@),
{
    enc_u64(out, l.items.len() as u64);
    enc_items(out, &l.items);
    enc_u32(out, l.exp);
    proof {
        assert(final(out)@ =~= old(out)@ + spec_enc_loot(l@));
    }
}

pub fn dec_loot(b: &[u8], i: usize) -> (r: Result<(LootData, usize), DecodeError>)
    ensures
        match r {
            Ok(p) => {
                &&& sdec_loot(b@, i as int) matches Some(q)
                &&& q.0 == p.0@
                &&& q.1 == p.1 as int
                &&& p.1 <= b@.len()
                &&& p.0@.wf()
            },
            Err(_) => sdec_loot(b@, i as int) is None,
        },
{
    let (n, j1) = match dec_u64(b, i) {
        Ok(p) => p,
        Err(e) => {
            return Err(e);
        },
    };
    let (items, j2) = match dec_items(b, j1, n) {
        Ok(p) => p,
        Err(e) => {
            return Err(e);
        },
    };
    let (exp, j3) = match dec_u32(b, j2) {
        Ok(p) => p,
        Err(e) => {
            return Err(e);
        },
    };
    Ok((LootData { items, exp }, j3))
}

/// Decoding an encoded loot record in place recovers it.
pub proof fn lemma_dec_enc_loot(b: Seq<u8>, i: int, v: LootDataV)
    requires
        0 <= i,
        v.wf(),
        i + spec_enc_loot(v).len() <= b.len(),
        b.subrange(i, i + spec_enc_loot(v).len()) == spec_enc_loot(v),
    ensures
        sdec_loot(b, i) == Some((v, i + spec_enc_loot(v).len())),
{
    let s1 = spec_u64_to_le_bytes(v.items.len() as u64);
    let s2 = spec_enc_items(v.items);
    let s3 = spec_u32_to_le_bytes(v.exp);
    vstd::bytes::lemma_auto_spec_u64_to_from_le_bytes();
    vstd::bytes::lemma_auto_spec_u32_to_from_le_bytes();
    assert(s1.len() == 8 && s3.len() == 4);
    assert(b.subrange(i, i + s1.len() + (s2 + s3).len()) =~= s1 + (s2 + s3));
    lemma_subrange_split(b, i, s1, s2 + s3);
    let i1 = i + s1.len();
    assert(b.subrange(i1, i1 + s2.len() + s3.len()) =~= s2 + s3);
    lemma_subrange_split(b, i1, s2, s3);
    let i2 = i1 + s2.len();
    lemma_dec_enc_u64(b, i, v.items.len() as u64);
    lemma_dec_enc_items(b, i1, v.items);
    lemma_dec_enc_u32(b, i2, v.exp);
}

pub open spec fn spec_enc_encounter(v: EncounterDataV) -> Seq<u8> {
    spec_enc_enemy(v.enemy) + (if v.attk is Some {
        seq![0u8] + spec_u32_to_le_bytes(v.attk->Some_0)
    } else if v.flee is Some {
        seq![1u8] + spec_enc_bool(v.flee->Some_0)
    } else if v.win is Some {
        seq![2u8] + spec_enc_loot(v.win->Some_0)
    } else {
        seq![3u8] + spec_enc_bool(v.lost->Some_0)
    })
}

pub open spec fn sdec_encounter(b: Seq<u8>, i: int) -> Option<(EncounterDataV, int)> {
    match sdec_enemy(b, i) {
        Some((enemy, j1)) => match sdec_byte(b, j1) {
            Some((t, j2)) => {
                if t == 0 {
                    match sdec_u32(b, j2) {
                        Some((x, j3)) => Some(
                            (
                                EncounterDataV {
                                    enemy,
                                    attk: Some(x),
                                    flee: None,
                                    win: None,
                                    lost: None,
                                },
                                j3,
                            ),
                        ),
                        None => None,
                    }
                } else if t == 1 {
                    match sdec_bool(b, j2) {
                        Some((x, j3)) => Some(
                            (
                                EncounterDataV {
                                    enemy,
                                    attk: None,
                                    flee: Some(x),
                                    win: None,
                                    lost: None,
                                },
                                j3,
                            ),
                        ),
                        None => None,
                    }
                } else if t == 2 {
                    match sdec_loot(b, j2) {
                        Some((x, j3)) => Some(
                            (
                                EncounterDataV {
                                    enemy,
                                    attk: None,
                                    flee: None,
                                    win: Some(x),
                                    lost: None,
                                },
                                j3,
                            ),
                        ),
                        None => None,
                    }
                } else if t == 3 {
                    match sdec_bool(b, j2) {
                        Some((x, j3)) => Some(
                            (
                                EncounterDataV {
                                    enemy,
                                    attk: None,
                                    flee: None,
                                    win: None,
                                    lost: Some(x),
                                },
                                j3,
                            ),
                        ),
                        None => None,
                    }
                } else {
                    None
                }
            },
            None => None,
        },
        None => None,
    }
}

pub fn enc_encounter(out: &mut Vec<u8>, e: &EncounterData)
    requires
        e@.wf(),
    ensures
        final(out)@ == old(out)@ + spec_enc_encounter(e@),
{
    enc_enemy(out, &e.enemy);
    if let Some(x) = e.attk {
        enc_byte(out, 0);
        enc_u32(out, x);
    } else if let Some(x) = e.flee {
        enc_byte(out, 1);
        enc_bool(out, x);
    } else if let Some(l) = &e.win {
        enc_byte(out, 2);
        enc_loot(out, l);
    } else {
        enc_byte(out, 3);
        enc_bool(out, match e.lost {
            Some(x) => x,
            None => false,
        });
    }
    proof {
        assert(final(out)@ =~= old(out)@ + spec_enc_encounter(e@));
    }
}

pub fn dec_encounter(b: &[u8], i: usize) -> (r: Result<(EncounterData, usize), DecodeError>)
    ensures
        match r {
            Ok(p) => {
                &&& sdec_encounter(b@, i as int) matches Some(q)
                &&& q.0 == p.0@
                &&& q.1 == p.1 as int
                &&& p.1 <= b@.len()
                &&& p.0@.wf()
            },
            Err(_) => sdec_encounter(b@, i as int) is None,
        },
{
    let (enemy, j1) = match dec_enemy(b, i) {
        Ok(p) => p,
        Err(e) => {
            return Err(e);
        },
    };
    let (t, j2) = match dec_byte(b, j1) {
        Ok(p) => p,
        Err(e) => {
            return Err(e);
        },
    };
    if t == 0 {
        let (x, j3) = match dec_u32(b, j2) {
            Ok(p) => p,
            Err(e) => {
                return Err(e);
            },
        };
        Ok((EncounterData { enemy, attk: Some(x), flee: None, win: None, lost: None }, j3))
    } else if t == 1 {
        let (x, j3) = match dec_bool(b, j2) {
            Ok(p) => p,
            Err(e) => {
                return Err(e);
            },
        };
        Ok((EncounterData { enemy, attk: None, flee: Some(x), win: None, lost: None }, j3))
    } else if t == 2 {
        let (x, j3) = match dec_loot(b, j2) {
            Ok(p) => p,
            Err(e) => {
                return Err(e);
            },
        };
        Ok((EncounterData { enemy, attk: None, flee: None, win: Some(x), lost: None }, j3))
    } else if t == 3 {
        let (x, j3) = match dec_bool(b, j2) {
            Ok(p) => p,
            Err(e) => {
                return Err(e);
            },
        };
        Ok((EncounterData { enemy, attk: None, flee: None, win: None, lost: Some(x) }, j3))
    } else {
        Err(DecodeError::UnknownTag)
    }
}

/// Decoding an encoded encounter record in place recovers it.
pub proof fn lemma_dec_enc_encounter(b: Seq<u8>, i: int, v: EncounterDataV)
    requires
        0 <= i,
        v.wf(),
        i + spec_enc_encounter(v).len() <= b.len(),
        b.subrange(i, i + spec_enc_encounter(v).len()) == spec_enc_encounter(v),
    ensures
        sdec_encounter(b, i) == Some((v, i + spec_enc_encounter(v).len())),
{
    let s1 = spec_enc_enemy(v.enemy);
    let t = if v.attk is Some {
        0u8
    } else if v.flee is Some {
        1u8
    } else if v.win is Some {
        2u8
    } else {
        3u8
    };
    let body = if v.attk is Some {
        spec_u32_to_le_bytes(v.attk->Some_0)
    } else if v.flee is Some {
        spec_enc_bool(v.flee->Some_0)
    } else if v.win is Some {
        spec_enc_loot(v.win->Some_0)
    } else {
        spec_enc_bool(v.lost->Some_0)
    };
    let s2 = seq![t];
    vstd::bytes::lemma_auto_spec_u32_to_from_le_bytes();
    assert(b.subrange(i, i + s1.len() + (s2 + body).len()) =~= s1 + (s2 + body));
    lemma_subrange_split(b, i, s1, s2 + body);
    let i1 = i + s1.len();
    assert(b.subrange(i1, i1 + s2.len() + body.len()) =~= s2 + body);
    lemma_subrange_split(b, i1, s2, body);
    let i2 = i1 + s2.len();
    lemma_dec_enc_enemy(b, i, v.enemy);
    lemma_dec_enc_byte(b, i1, t);
    if v.attk is Some {
        lemma_dec_enc_u32(b, i2, v.attk->Some_0);
    } else if v.flee is Some {
        lemma_dec_enc_bool(b, i2, v.flee->Some_0);
    } else if v.win is Some {
        lemma_dec_enc_loot(b, i2, v.win->Some_0);
    } else {
        lemma_dec_enc_bool(b, i2, v.lost->Some_0);
    }
}

pub open spec fn spec_enc_entry_point(v: EntryPointV) -> Seq<u8> {
    match v {
        EntryPointV::Version(s) => seq![0u8] + spec_enc_str(s),
        EntryPointV::LoginAttempt(l) => seq![1u8] + spec_enc_login(l),
    }
}

pub open spec fn sdec_entry_point(b: Seq<u8>, i: int) -> Option<(EntryPointV, int)> {
    match sdec_byte(b, i) {
        Some((t, j)) => {
            if t == 0 {
                match sdec_str(b, j) {
                    Some((s, k)) => Some((EntryPointV::Version(s), k)),
                    None => None,
                }
            } else if t == 1 {
                match sdec_login(b, j) {
                    Some((l, k)) => Some((EntryPointV::LoginAttempt(l), k)),
                    None => None,
                }
            } else {
                None
            }
        },
        None => None,
    }
}

pub open spec fn spec_enc_entry_response(v: EntryResponseV) -> Seq<u8> {
    match v {
        EntryResponseV::Version(s) => seq![0u8] + spec_enc_str(s),
        EntryResponseV::Motd(s) => seq![1u8] + spec_enc_str(s),
        EntryResponseV::Error(s) => seq![2u8] + spec_enc_str(s),
    }
}

pub open spec fn sdec_entry_response(b: Seq<u8>, i: int) -> Option<(EntryResponseV, int)> {
    match sdec_byte(b, i) {
        Some((t, j)) => {
            if t <= 2 {
                match sdec_str(b, j) {
                    Some((s, k)) => {
                        if t == 0 {
                            Some((EntryResponseV::Version(s), k))
                        } else if t == 1 {
                            Some((EntryResponseV::Motd(s), k))
                        } else {
                            Some((EntryResponseV::Error(s), k))
                        }
                    },
                    None => None,
                }
            } else {
                None
            }
        },
        None => None,
    }
}

pub open spec fn spec_enc_client_event(v: ClientEventV) -> Seq<u8> {
    match v {
        ClientEventV::Disconnect => seq![0u8],
        ClientEventV::KeepAlive(t) => seq![1u8] + spec_u64_to_le_bytes(t),
        ClientEventV::Step => seq![2u8],
        ClientEventV::OpenInv => seq![3u8],
        ClientEventV::DropItem(s) => seq![4u8] + spec_enc_str(s),
        ClientEventV::InspectItem(s) => seq![5u8] + spec_enc_str(s),
        ClientEventV::Attack => seq![6u8],
        ClientEventV::TryFlee => seq![7u8],
        ClientEventV::Error(e) => seq![8u8] + spec_enc_error(e),
    }
}

pub open spec fn sdec_client_event(b: Seq<u8>, i: int) -> Option<(ClientEventV, int)> {
    match sdec_byte(b, i) {
        Some((t, j)) => {
            if t == 0 {
                Some((ClientEventV::Disconnect, j))
            } else if t == 1 {
                match sdec_u64(b, j) {
                    Some((x, k)) => Some((ClientEventV::KeepAlive(x), k)),
                    None => None,
                }
            } else if t == 2 {
                Some((ClientEventV::Step, j))
            } else if t == 3 {
                Some((ClientEventV::OpenInv, j))
            } else if t == 4 {
                match sdec_str(b, j) {
                    Some((s, k)) => Some((ClientEventV::DropItem(s), k)),
                    None => None,
                }
            } else if t == 5 {
                match sdec_str(b, j) {
                    Some((s, k)) => Some((ClientEventV::InspectItem(s), k)),
                    None => None,
                }
            } else if t == 6 {
                Some((ClientEventV::Attack, j))
            } else if t == 7 {
                Some((ClientEventV::TryFlee, j))
            } else if t == 8 {
                match sdec_error(b, j) {
                    Some((e, k)) => Some((ClientEventV::Error(e), k)),
                    None => None,
                }
            } else {
                None
            }
        },
        None => None,
    }
}

pub open spec fn spec_enc_server_event(v: ServerEventV) -> Seq<u8> {
    match v {
        ServerEventV::Disconnect => seq![0u8],
        ServerEventV::Keepalive(t) => seq![1u8] + spec_u64_to_le_bytes(t),
        ServerEventV::Event(s) => seq![2u8] + spec_enc_str(s),
        ServerEventV::GainExp(x) => seq![3u8] + spec_u32_to_le_bytes(x),
        ServerEventV::FindItem(d) => seq![4u8] + spec_enc_item(d),
        ServerEventV::Encounter(e) => seq![5u8] + spec_enc_encounter(e),
        ServerEventV::Update(p) => seq![6u8] + spec_enc_player(p),
        ServerEventV::Inventory(items) => seq![7u8] + spec_u64_to_le_bytes(items.len() as u64)
            + spec_enc_items(items),
        ServerEventV::ItemView(d) => seq![8u8] + spec_enc_item(d),
        ServerEventV::Error(e) => seq![9u8] + spec_enc_error(e),
    }
}

pub open spec fn sdec_server_event(b: Seq<u8>, i: int) -> Option<(ServerEventV, int)> {
    match sdec_byte(b, i) {
        Some((t, j)) => {
            if t == 0 {
                Some((ServerEventV::Disconnect, j))
            } else if t == 1 {
                match sdec_u64(b, j) {
                    Some((x, k)) => Some((ServerEventV::Keepalive(x), k)),
                    None => None,
                }
            } else if t == 2 {
                match sdec_str(b, j) {
                    Some((s, k)) => Some((ServerEventV::Event(s), k)),
                    None => None,
                }
            } else if t == 3 {
                match sdec_u32(b, j) {
                    Some((x, k)) => Some((ServerEventV::GainExp(x), k)),
                    None => None,
                }
            } else if t == 4 {
                match sdec_item(b, j) {
                    Some((d, k)) => Some((ServerEventV::FindItem(d), k)),
                    None => None,
                }
            } else if t == 5 {
                match sdec_encounter(b, j) {
                    Some((e, k)) => Some((ServerEventV::Encounter(e), k)),
                    None => None,
                }
            } else if t == 6 {
                match sdec_player(b, j) {
                    Some((p, k)) => Some((ServerEventV::Update(p), k)),
                    None => None,
                }
            } else if t == 7 {
                match sdec_u64(b, j) {
                    Some((n, k1)) => match sdec_items(b, k1, n) {
                        Some((items, k2)) => Some((ServerEventV::Inventory(items), k2)),
                        None => None,
                    },
                    None => None,
                }
            } else if t == 8 {
                match sdec_item(b, j) {
                    Some((d, k)) => Some((ServerEventV::ItemView(d), k)),
                    None => None,
                }
            } else if t == 9 {
                match sdec_error(b, j) {
                    Some((e, k)) => Some((ServerEventV::Error(e), k)),
                    None => None,
                }
            } else {
                None
            }
        },
        None => None,
    }
}

/// A complete frame: an 8-byte length prefix followed by exactly that many
/// payload bytes.
pub open spec fn spec_frame(p: Seq<u8>) -> Seq<u8> {
    spec_u64_to_le_bytes(p.len() as u64) + p
}

pub open spec fn sdec_entry_point_msg(b: Seq<u8>) -> Option<EntryPointV> {
    match sdec_u64(b, 0) {
        Some((n, j)) => {
            if n == b.len() - 8 {
                match sdec_entry_point(b, j) {
                    Some((v, k)) => {
                        if k == b.len() {
                            Some(v)
                        } else {
                            None
                        }
                    },
                    None => None,
                }
            } else {
                None
            }
        },
        None => None,
    }
}

pub open spec fn sdec_entry_response_msg(b: Seq<u8>) -> Option<EntryResponseV> {
    match sdec_u64(b, 0) {
        Some((n, j)) => {
            if n == b.len() - 8 {
                match sdec_entry_response(b, j) {
                    Some((v, k)) => {
                        if k == b.len() {
                            Some(v)
                        } else {
                            None
                        }
                    },
                    None => None,
                }
            } else {
                None
            }
        },
        None => None,
    }
}

pub open spec fn sdec_client_event_msg(b: Seq<u8>) -> Option<ClientEventV> {
    match sdec_u64(b, 0) {
        Some((n, j)) => {
            if n == b.len() - 8 {
                match sdec_client_event(b, j) {
                    Some((v, k)) => {
                        if k == b.len() {
                            Some(v)
                        } else {
                            None
                        }
                    },
                    None => None,
                }
            } else {
                None
            }
        },
        None => None,
    }
}

pub open spec fn sdec_server_event_msg(b: Seq<u8>) -> Option<ServerEventV> {
    match sdec_u64(b, 0) {
        Some((n, j)) => {
            if n == b.len() - 8 {
                match sdec_server_event(b, j) {
                    Some((v, k)) => {
                        if k == b.len() {
                            Some(v)
                        } else {
                            None
                        }
                    },
                    None => None,
                }
            } else {
                None
            }
        },
        None => None,
    }
}

fn finish_frame(payload: Vec<u8>) -> (r: Vec<u8>)
    ensures
        r@ == spec_frame(payload@),
{
    let mut out: Vec<u8> = Vec::new();
    let mut p = payload;
    enc_u64(&mut out, p.len() as u64);
    out.append(&mut p);
    proof {
        assert(out@ =~= spec_frame(payload@));
    }
    out
}

pub fn encode_entry_point(m: &EntryPoint) -> (r: Vec<u8>)
    ensures
        r@ == spec_frame(spec_enc_entry_point(m@)),
{
    let mut payload: Vec<u8> = Vec::new();
    match m {
        EntryPoint::Version(s) => {
            enc_byte(&mut payload, 0);
            enc_str(&mut payload, s.as_str());
        },
        EntryPoint::LoginAttempt(l) => {
            enc_byte(&mut payload, 1);
            enc_login(&mut payload, l);
        },
    }
    proof {
        assert(payload@ =~= spec_enc_entry_point(m@));
    }
    finish_frame(payload)
}

pub fn encode_entry_response(m: &EntryResponse) -> (r: Vec<u8>)
    ensures
        r@ == spec_frame(spec_enc_entry_response(m@)),
{
    let mut payload: Vec<u8> = Vec::new();
    match m {
        EntryResponse::Version(s) => {
            enc_byte(&mut payload, 0);
            enc_str(&mut payload, s.as_str());
        },
        EntryResponse::Motd(s) => {
            enc_byte(&mut payload, 1);
            enc_str(&mut payload, s.as_str());
        },
        EntryResponse::Error(s) => {
            enc_byte(&mut payload, 2);
            enc_str(&mut payload, s.as_str());
        },
    }
    proof {
        assert(payload@ =~= spec_enc_entry_response(m@));
    }
    finish_frame(payload)
}

pub fn encode_client_event(m: &ClientEvent) -> (r: Vec<u8>)
    ensures
        r@ == spec_frame(spec_enc_client_event(m@)),
{
    let mut payload: Vec<u8> = Vec::new();
    match m {
        ClientEvent::Disconnect => {
            enc_byte(&mut payload, 0);
        },
        ClientEvent::KeepAlive(t) => {
            enc_byte(&mut payload, 1);
            enc_u64(&mut payload, *t);
        },
        ClientEvent::Step => {
            enc_byte(&mut payload, 2);
        },
        ClientEvent::OpenInv => {
            enc_byte(&mut payload, 3);
        },
        ClientEvent::DropItem(s) => {
            enc_byte(&mut payload, 4);
            enc_str(&mut payload, s.as_str());
        },
        ClientEvent::InspectItem(s) => {
            enc_byte(&mut payload, 5);
            enc_str(&mut payload, s.as_str());
        },
        ClientEvent::Attack => {
            enc_byte(&mut payload, 6);
        },
        ClientEvent::TryFlee => {
            enc_byte(&mut payload, 7);
        },
        ClientEvent::Error(e) => {
            enc_byte(&mut payload, 8);
            enc_error(&mut payload, e);
        },
    }
    proof {
        assert(payload@ =~= spec_enc_client_event(m@));
    }
    finish_frame(payload)
}

pub fn encode_server_event(m: &ServerEvent) -> (r: Vec<u8>)
    requires
        m@.wf(),
    ensures
        r@ == spec_frame(spec_enc_server_event(m@)),
{
    let mut payload: Vec<u8> = Vec::new();
    match m {
        ServerEvent::Disconnect => {
            enc_byte(&mut payload, 0);
        },
        ServerEvent::Keepalive(t) => {
            enc_byte(&mut payload, 1);
            enc_u64(&mut payload, *t);
        },
        ServerEvent::Event(s) => {
            enc_byte(&mut payload, 2);
            enc_str(&mut payload, s.as_str());
        },
        ServerEvent::GainExp(x) => {
            enc_byte(&mut payload, 3);
            enc_u32(&mut payload, *x);
        },
        ServerEvent::FindItem(d) => {
            enc_byte(&mut payload, 4);
            enc_item(&mut payload, d);
        },
        ServerEvent::Encounter(e) => {
            enc_byte(&mut payload, 5);
            enc_encounter(&mut payload, e);
        },
        ServerEvent::Update(p) => {
            enc_byte(&mut payload, 6);
            enc_player(&mut payload, p);
        },
        ServerEvent::Inventory(items) => {
            enc_byte(&mut payload, 7);
            enc_u64(&mut payload, items.len() as u64);
            enc_items(&mut payload, items);
        },
        ServerEvent::ItemView(d) => {
            enc_byte(&mut payload, 8);
            enc_item(&mut payload, d);
        },
        ServerEvent::Error(e) => {
            enc_byte(&mut payload, 9);
            enc_error(&mut payload, e);
        },
    }
    proof {
        assert(payload@ =~= spec_enc_server_event(m@));
    }
    finish_frame(payload)
}

pub fn decode_entry_point(b: &[u8]) -> (r: Result<EntryPoint, DecodeError>)
    ensures
        match r {
            Ok(m) => sdec_entry_point_msg(b@) == Some(m.deep_view()) && m.deep_view().wf(),
            Err(_) => sdec_entry_point_msg(b@) is None,
        },
        b@.len() < 8 ==> r == Err::<EntryPoint, DecodeError>(DecodeError::Truncated),
        (sdec_u64(b@, 0) matches Some(p) && p.0 != b@.len() - 8) ==> r == Err::<EntryPoint, DecodeError>(DecodeError::BadFrame),
{
    let (n, j) = match dec_u64(b, 0) {
        Ok(p) => p,
        Err(e) => {
            return Err(e);
        },
    };
    if n != (b.len() - 8) as u64 {
        return Err(DecodeError::BadFrame);
    }
    let (t, j1) = match dec_byte(b, j) {
        Ok(p) => p,
        Err(e) => {
            return Err(e);
        },
    };
    if t == 0 {
        let (s, k) = match dec_str(b, j1) {
            Ok(p) => p,
            Err(e) => {
                return Err(e);
            },
        };
        if k == b.len() {
            Ok(EntryPoint::Version(s))
        } else {
            Err(DecodeError::BadFrame)
        }
    } else if t == 1 {
        let (l, k) = match dec_login(b, j1) {
            Ok(p) => p,
            Err(e) => {
                return Err(e);
            },
        };
        if k == b.len() {
            Ok(EntryPoint::LoginAttempt(l))
        } else {
            Err(DecodeError::BadFrame)
        }
    } else {
        Err(DecodeError::UnknownTag)
    }
}

pub fn decode_entry_response(b: &[u8]) -> (r: Result<EntryResponse, DecodeError>)
    ensures
        match r {
            Ok(m) => sdec_entry_response_msg(b@) == Some(m.deep_view()) && m.deep_view().wf(),
            Err(_) => sdec_entry_response_msg(b@) is None,
        },
        b@.len() < 8 ==> r == Err::<EntryResponse, DecodeError>(DecodeError::Truncated),
        (sdec_u64(b@, 0) matches Some(p) && p.0 != b@.len() - 8) ==> r == Err::<EntryResponse, DecodeError>(DecodeError::BadFrame),
{
    let (n, j) = match dec_u64(b, 0) {
        Ok(p) => p,
        Err(e) => {
            return Err(e);
        },
    };
    if n != (b.len() - 8) as u64 {
        return Err(DecodeError::BadFrame);
    }
    let (t, j1) = match dec_byte(b, j) {
        Ok(p) => p,
        Err(e) => {
            return Err(e);
        },
    };
    if t > 2 {
        return Err(DecodeError::UnknownTag);
    }
    let (s, k) = match dec_str(b, j1) {
        Ok(p) => p,
        Err(e) => {
            return Err(e);
        },
    };
    if k != b.len() {
        return Err(DecodeError::BadFrame);
    }
    if t == 0 {
        Ok(EntryResponse::Version(s))
    } else if t == 1 {
        Ok(EntryResponse::Motd(s))
    } else {
        Ok(EntryResponse::Error(s))
    }
}

pub fn decode_client_event(b: &[u8]) -> (r: Result<ClientEvent, DecodeError>)
    ensures
        match r {
            Ok(m) => sdec_client_event_msg(b@) == Some(m.deep_view()) && m.deep_view().wf(),
            Err(_) => sdec_client_event_msg(b@) is None,
        },
        b@.len() < 8 ==> r == Err::<ClientEvent, DecodeError>(DecodeError::Truncated),
        (sdec_u64(b@, 0) matches Some(p) && p.0 != b@.len() - 8) ==> r == Err::<ClientEvent, DecodeError>(DecodeError::BadFrame),
{
    let (n, j) = match dec_u64(b, 0) {
        Ok(p) => p,
        Err(e) => {
            return Err(e);
        },
    };
    if n != (b.len() - 8) as u64 {
        return Err(DecodeError::BadFrame);
    }
    let (t, j1) = match dec_byte(b, j) {
        Ok(p) => p,
        Err(e) => {
            return Err(e);
        },
    };
    let (ev, k) = if t == 0 {
        (ClientEvent::Disconnect, j1)
    } else if t == 1 {
        let (x, k) = match dec_u64(b, j1) {
            Ok(p) => p,
            Err(e) => {
                return Err(e);
            },
        };
        (ClientEvent::KeepAlive(x), k)
    } else if t == 2 {
        (ClientEvent::Step, j1)
    } else if t == 3 {
        (ClientEvent::OpenInv, j1)
    } else if t == 4 {
        let (s, k) = match dec_str(b, j1) {
            Ok(p) => p,
            Err(e) => {
                return Err(e);
            },
        };
        (ClientEvent::DropItem(s), k)
    } else if t == 5 {
        let (s, k) = match dec_str(b, j1) {
            Ok(p) => p,
            Err(e) => {
                return Err(e);
            },
        };
        (ClientEvent::InspectItem(s), k)
    } else if t == 6 {
        (ClientEvent::Attack, j1)
    } else if t == 7 {
        (ClientEvent::TryFlee, j1)
    } else if t == 8 {
        let (e, k) = match dec_error(b, j1) {
            Ok(p) => p,
            Err(e) => {
                return Err(e);
            },
        };
        (ClientEvent::Error(e), k)
    } else {
        return Err(DecodeError::UnknownTag);
    };
    if k == b.len() {
        Ok(ev)
    } else {
        Err(DecodeError::BadFrame)
    }
}

#[verifier::rlimit(60)]
#[verifier::spinoff_prover]
pub fn decode_server_event(b: &[u8]) -> (r: Result<ServerEvent, DecodeError>)
    ensures
        match r {
            Ok(m) => sdec_server_event_msg(b@) == Some(m.deep_view()) && m.deep_view().wf(),
            Err(_) => sdec_server_event_msg(b@) is None,
        },
        b@.len() < 8 ==> r == Err::<ServerEvent, DecodeError>(DecodeError::Truncated),
        (sdec_u64(b@, 0) matches Some(p) && p.0 != b@.len() - 8) ==> r == Err::<ServerEvent, DecodeError>(DecodeError::BadFrame),
{
    let (n, j) = match dec_u64(b, 0) {
        Ok(p) => p,
        Err(e) => {
            return Err(e);
        },
    };
    if n != (b.len() - 8) as u64 {
        return Err(DecodeError::BadFrame);
    }
    let (t, j1) = match dec_byte(b, j) {
        Ok(p) => p,
        Err(e) => {
            return Err(e);
        },
    };
    let (ev, k) = if t == 0 {
        (ServerEvent::Disconnect, j1)
    } else if t == 1 {
        let (x, k) = match dec_u64(b, j1) {
            Ok(p) => p,
            Err(e) => {
                return Err(e);
            },
        };
        (ServerEvent::Keepalive(x), k)
    } else if t == 2 {
        let (s, k) = match dec_str(b, j1) {
            Ok(p) => p,
            Err(e) => {
                return Err(e);
            },
        };
        (ServerEvent::Event(s), k)
    } else if t == 3 {
        let (x, k) = match dec_u32(b, j1) {
            Ok(p) => p,
            Err(e) => {
                return Err(e);
            },
        };
        (ServerEvent::GainExp(x), k)
    } else if t == 4 {
        let (d, k) = match dec_item(b, j1) {
            Ok(p) => p,
            Err(e) => {
                return Err(e);
            },
        };
        (ServerEvent::FindItem(d), k)
    } else if t == 5 {
        let (e, k) = match dec_encounter(b, j1) {
            Ok(p) => p,
            Err(e) => {
                return Err(e);
            },
        };
        (ServerEvent::Encounter(e), k)
    } else if t == 6 {
        let (p, k) = match dec_player(b, j1) {
            Ok(p) => p,
            Err(e) => {
                return Err(e);
            },
        };
        (ServerEvent::Update(p), k)
    } else if t == 7 {
        let (cnt, k1) = match dec_u64(b, j1) {
            Ok(p) => p,
            Err(e) => {
                return Err(e);
            },
        };
        let (items, k2) = match dec_items(b, k1, cnt) {
            Ok(p) => p,
            Err(e) => {
                return Err(e);
            },
        };
        (ServerEvent::Inventory(items), k2)
    } else if t == 8 {
        let (d, k) = match dec_item(b, j1) {
            Ok(p) => p,
            Err(e) => {
                return Err(e);
            },
        };
        (ServerEvent::ItemView(d), k)
    } else if t == 9 {
        let (e, k) = match dec_error(b, j1) {
            Ok(p) => p,
            Err(e) => {
                return Err(e);
            },
        };
        (ServerEvent::Error(e), k)
    } else {
        return Err(DecodeError::UnknownTag);
    };
    if k == b.len() {
        Ok(ev)
    } else {
        Err(DecodeError::BadFrame)
    }
}

/// Decoding an encoded handshake message in place recovers it.
pub proof fn lemma_dec_enc_entry_point(b: Seq<u8>, i: int, v: EntryPointV)
    requires
        0 <= i,
        v.wf(),
        i + spec_enc_entry_point(v).len() <= b.len(),
        b.subrange(i, i + spec_enc_entry_point(v).len()) == spec_enc_entry_point(v),
    ensures
        sdec_entry_point(b, i) == Some((v, i + spec_enc_entry_point(v).len())),
{
    match v {
        EntryPointV::Version(s) => {
            lemma_subrange_split(b, i, seq![0u8], spec_enc_str(s));
            lemma_dec_enc_byte(b, i, 0);
            lemma_dec_enc_str(b, i + 1, s);
        },
        EntryPointV::LoginAttempt(l) => {
            lemma_subrange_split(b, i, seq![1u8], spec_enc_login(l));
            lemma_dec_enc_byte(b, i, 1);
            lemma_dec_enc_login(b, i + 1, l);
        },
    }
}

/// Decoding an encoded handshake reply in place recovers it.
pub proof fn lemma_dec_enc_entry_response(b: Seq<u8>, i: int, v: EntryResponseV)
    requires
        0 <= i,
        v.wf(),
        i + spec_enc_entry_response(v).len() <= b.len(),
        b.subrange(i, i + spec_enc_entry_response(v).len()) == spec_enc_entry_response(v),
    ensures
        sdec_entry_response(b, i) == Some((v, i + spec_enc_entry_response(v).len())),
{
    match v {
        EntryResponseV::Version(s) => {
            lemma_subrange_split(b, i, seq![0u8], spec_enc_str(s));
            lemma_dec_enc_byte(b, i, 0);
            lemma_dec_enc_str(b, i + 1, s);
        },
        EntryResponseV::Motd(s) => {
            lemma_subrange_split(b, i, seq![1u8], spec_enc_str(s));
            lemma_dec_enc_byte(b, i, 1);
            lemma_dec_enc_str(b, i + 1, s);
        },
        EntryResponseV::Error(s) => {
            lemma_subrange_split(b, i, seq![2u8], spec_enc_str(s));
            lemma_dec_enc_byte(b, i, 2);
            lemma_dec_enc_str(b, i + 1, s);
        },
    }
}

/// Decoding an encoded client command in place recovers it.
pub proof fn lemma_dec_enc_client_event(b: Seq<u8>, i: int, v: ClientEventV)
    requires
        0 <= i,
        v.wf(),
        i + spec_enc_client_event(v).len() <= b.len(),
        b.subrange(i, i + spec_enc_client_event(v).len()) == spec_enc_client_event(v),
    ensures
        sdec_client_event(b, i) == Some((v, i + spec_enc_client_event(v).len())),
{
    vstd::bytes::lemma_auto_spec_u64_to_from_le_bytes();
    match v {
        ClientEventV::Disconnect => {
            lemma_dec_enc_byte(b, i, 0);
        },
        ClientEventV::KeepAlive(t) => {
            lemma_subrange_split(b, i, seq![1u8], spec_u64_to_le_bytes(t));
            lemma_dec_enc_byte(b, i, 1);
            lemma_dec_enc_u64(b, i + 1, t);
        },
        ClientEventV::Step => {
            lemma_dec_enc_byte(b, i, 2);
        },
        ClientEventV::OpenInv => {
            lemma_dec_enc_byte(b, i, 3);
        },
        ClientEventV::DropItem(s) => {
            lemma_subrange_split(b, i, seq![4u8], spec_enc_str(s));
            lemma_dec_enc_byte(b, i, 4);
            lemma_dec_enc_str(b, i + 1, s);
        },
        ClientEventV::InspectItem(s) => {
            lemma_subrange_split(b, i, seq![5u8], spec_enc_str(s));
            lemma_dec_enc_byte(b, i, 5);
            lemma_dec_enc_str(b, i + 1, s);
        },
        ClientEventV::Attack => {
            lemma_dec_enc_byte(b, i, 6);
        },
        ClientEventV::TryFlee => {
            lemma_dec_enc_byte(b, i, 7);
        },
        ClientEventV::Error(e) => {
            lemma_subrange_split(b, i, seq![8u8], spec_enc_error(e));
            lemma_dec_enc_byte(b, i, 8);
            lemma_dec_enc_error(b, i + 1, e);
        },
    }
}

/// Decoding an encoded server update in place recovers it.
pub proof fn lemma_dec_enc_server_event(b: Seq<u8>, i: int, v: ServerEventV)
    requires
        0 <= i,
        v.wf(),
        i + spec_enc_server_event(v).len() <= b.len(),
        b.subrange(i, i + spec_enc_server_event(v).len()) == spec_enc_server_event(v),
    ensures
        sdec_server_event(b, i) == Some((v, i + spec_enc_server_event(v).len())),
{
    vstd::bytes::lemma_auto_spec_u64_to_from_le_bytes();
    vstd::bytes::lemma_auto_spec_u32_to_from_le_bytes();
    match v {
        ServerEventV::Disconnect => {
            lemma_dec_enc_byte(b, i, 0);
        },
        ServerEventV::Keepalive(t) => {
            lemma_subrange_split(b, i, seq![1u8], spec_u64_to_le_bytes(t));
            lemma_dec_enc_byte(b, i, 1);
            lemma_dec_enc_u64(b, i + 1, t);
        },
        ServerEventV::Event(s) => {
            lemma_subrange_split(b, i, seq![2u8], spec_enc_str(s));
            lemma_dec_enc_byte(b, i, 2);
            lemma_dec_enc_str(b, i + 1, s);
        },
        ServerEventV::GainExp(x) => {
            lemma_subrange_split(b, i, seq![3u8], spec_u32_to_le_bytes(x));
            lemma_dec_enc_byte(b, i, 3);
            lemma_dec_enc_u32(b, i + 1, x);
        },
        ServerEventV::FindItem(d) => {
            lemma_subrange_split(b, i, seq![4u8], spec_enc_item(d));
            lemma_dec_enc_byte(b, i, 4);
            lemma_dec_enc_item(b, i + 1, d);
        },
        ServerEventV::Encounter(e) => {
            lemma_subrange_split(b, i, seq![5u8], spec_enc_encounter(e));
            lemma_dec_enc_byte(b, i, 5);
            lemma_dec_enc_encounter(b, i + 1, e);
        },
        ServerEventV::Update(p) => {
            lemma_subrange_split(b, i, seq![6u8], spec_enc_player(p));
            lemma_dec_enc_byte(b, i, 6);
            lemma_dec_enc_player(b, i + 1, p);
        },
        ServerEventV::Inventory(items) => {
            let s1 = seq![7u8];
            let s2 = spec_u64_to_le_bytes(items.len() as u64);
            let s3 = spec_enc_items(items);
            assert(b.subrange(i, i + s1.len() + (s2 + s3).len()) =~= s1 + (s2 + s3));
            lemma_subrange_split(b, i, s1, s2 + s3);
            let i1 = i + s1.len();
            assert(b.subrange(i1, i1 + s2.len() + s3.len()) =~= s2 + s3);
            lemma_subrange_split(b, i1, s2, s3);
            let i2 = i1 + s2.len();
            lemma_dec_enc_byte(b, i, 7);
            lemma_dec_enc_u64(b, i1, items.len() as u64);
            lemma_dec_enc_items(b, i2, items);
        },
        ServerEventV::ItemView(d) => {
            lemma_subrange_split(b, i, seq![8u8], spec_enc_item(d));
            lemma_dec_enc_byte(b, i, 8);
            lemma_dec_enc_item(b, i + 1, d);
        },
        ServerEventV::Error(e) => {
            lemma_subrange_split(b, i, seq![9u8], spec_enc_error(e));
            lemma_dec_enc_byte(b, i, 9);
            lemma_dec_enc_error(b, i + 1, e);
        },
    }
}

/// Round trip for the handshake family: decoding the frame encoded from any
/// well-formed message yields that message.
pub proof fn lemma_entry_point_round_trip(v: EntryPointV)
    requires
        v.wf(),
        spec_enc_entry_point(v).len() <= usize::MAX,
    ensures
        sdec_entry_point_msg(spec_frame(spec_enc_entry_point(v))) == Some(v),
{
    let p = spec_enc_entry_point(v);
    let b = spec_frame(p);
    vstd::bytes::lemma_auto_spec_u64_to_from_le_bytes();
    assert(b.subrange(0, 8 + p.len() as int) =~= spec_u64_to_le_bytes(p.len() as u64) + p);
    lemma_subrange_split(b, 0, spec_u64_to_le_bytes(p.len() as u64), p);
    lemma_dec_enc_u64(b, 0, p.len() as u64);
    lemma_dec_enc_entry_point(b, 8, v);
}

/// Round trip for the handshake reply family.
pub proof fn lemma_entry_response_round_trip(v: EntryResponseV)
    requires
        v.wf(),
        spec_enc_entry_response(v).len() <= usize::MAX,
    ensures
        sdec_entry_response_msg(spec_frame(spec_enc_entry_response(v))) == Some(v),
{
    let p = spec_enc_entry_response(v);
    let b = spec_frame(p);
    vstd::bytes::lemma_auto_spec_u64_to_from_le_bytes();
    assert(b.subrange(0, 8 + p.len() as int) =~= spec_u64_to_le_bytes(p.len() as u64) + p);
    lemma_subrange_split(b, 0, spec_u64_to_le_bytes(p.len() as u64), p);
    lemma_dec_enc_u64(b, 0, p.len() as u64);
    lemma_dec_enc_entry_response(b, 8, v);
}

/// Round trip for the client command family.
pub proof fn lemma_client_event_round_trip(v: ClientEventV)
    requires
        v.wf(),
        spec_enc_client_event(v).len() <= usize::MAX,
    ensures
        sdec_client_event_msg(spec_frame(spec_enc_client_event(v))) == Some(v),
{
    let p = spec_enc_client_event(v);
    let b = spec_frame(p);
    vstd::bytes::lemma_auto_spec_u64_to_from_le_bytes();
    assert(b.subrange(0, 8 + p.len() as int) =~= spec_u64_to_le_bytes(p.len() as u64) + p);
    lemma_subrange_split(b, 0, spec_u64_to_le_bytes(p.len() as u64), p);
    lemma_dec_enc_u64(b, 0, p.len() as u64);
    lemma_dec_enc_client_event(b, 8, v);
}

/// Round trip for the server update family.
pub proof fn lemma_server_event_round_trip(v: ServerEventV)
    requires
        v.wf(),
        spec_enc_server_event(v).len() <= usize::MAX,
    ensures
        sdec_server_event_msg(spec_frame(spec_enc_server_event(v))) == Some(v),
{
    let p = spec_enc_server_event(v);
    let b = spec_frame(p);
    vstd::bytes::lemma_auto_spec_u64_to_from_le_bytes();
    assert(b.subrange(0, 8 + p.len() as int) =~= spec_u64_to_le_bytes(p.len() as u64) + p);
    lemma_subrange_split(b, 0, spec_u64_to_le_bytes(p.len() as u64), p);
    lemma_dec_enc_u64(b, 0, p.len() as u64);
    lemma_dec_enc_server_event(b, 8, v);
}

} // verus!
