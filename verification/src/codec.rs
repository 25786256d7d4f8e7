//! Byte-level codecs for the record types carried inside protocol messages.
//! Each record has a specification-level encoder `spec_enc_*`, a
//! specification-level decoder `sdec_*` reading at a position, executable
//! counterparts proved against them, and a lemma showing the decoder
//! inverts the encoder.

use crate::messages::{
    EnemyData, EnemyDataV, ErrorData, ErrorDataV, ItemData, ItemDataV, LoginData, LoginDataV,
    PlayerData, PlayerDataV,
};
use crate::wire::{
    dec_bool, dec_byte, dec_str, dec_u32, enc_bool, enc_byte, enc_str, enc_u32, lemma_dec_enc_bool,
    lemma_dec_enc_byte, lemma_dec_enc_str, lemma_dec_enc_u32, lemma_subrange_split, sdec_bool,
    sdec_byte, sdec_str, sdec_u32, spec_enc_bool, spec_enc_str, DecodeError,
};
use vstd::bytes::spec_u32_to_le_bytes;
use vstd::prelude::*;

verus! {

pub open spec fn spec_enc_error(v: ErrorDataV) -> Seq<u8> {
    spec_enc_str(v.msg) + spec_enc_bool(v.disconnect)
}

pub open spec fn sdec_error(b: Seq<u8>, i: int) -> Option<(ErrorDataV, int)> {
    match sdec_str(b, i) {
        Some((msg, j)) => match sdec_bool(b, j) {
            Some((disconnect, k)) => Some((ErrorDataV { msg, disconnect }, k)),
            None => None,
        },
        None => None,
    }
}

pub fn enc_error(out: &mut Vec<u8>, e: &ErrorData)
    ensures
        final(out)@ == old(out)@ + spec_enc_error(e@),
{
    enc_str(out, e.msg.as_str());
    enc_bool(out, e.disconnect);
    proof {
        assert(final(out)@ =~= old(out)@ + spec_enc_error(e@));
    }
}

pub fn dec_error(b: &[u8], i: usize) -> (r: Result<(ErrorData, usize), DecodeError>)
    ensures
        match r {
            Ok(p) => {
                &&& sdec_error(b@, i as int) matches Some(q)
                &&& q.0 == p.0@
                &&& q.1 == p.1 as int
                &&& p.1 <= b@.len()
                &&& p.0@.wf()
            },
            Err(_) => sdec_error(b@, i as int) is None,
        },
{
    let (msg, j) = match dec_str(b, i) {
        Ok(p) => p,
        Err(e) => {
            return Err(e);
        },
    };
    let (disconnect, k) = match dec_bool(b, j) {
        Ok(p) => p,
        Err(e) => {
            return Err(e);
        },
    };
    Ok((ErrorData { msg, disconnect }, k))
}

/// Decoding an encoded error record in place recovers it.
pub proof fn lemma_dec_enc_error(b: Seq<u8>, i: int, v: ErrorDataV)
    requires
        0 <= i,
        v.wf(),
        i + spec_enc_error(v).len() <= b.len(),
        b.subrange(i, i + spec_enc_error(v).len()) == spec_enc_error(v),
    ensures
        sdec_error(b, i) == Some((v, i + spec_enc_error(v).len())),
{
    lemma_subrange_split(b, i, spec_enc_str(v.msg), spec_enc_bool(v.disconnect));
    lemma_dec_enc_str(b, i, v.msg);
    lemma_dec_enc_bool(b, i + spec_enc_str(v.msg).len(), v.disconnect);
}

pub open spec fn spec_enc_login(v: LoginDataV) -> Seq<u8> {
    spec_enc_str(v.username) + spec_enc_str(v.passwd) + spec_enc_bool(v.signup) + spec_enc_str(
        v.client_ver,
    )
}

pub open spec fn sdec_login(b: Seq<u8>, i: int) -> Option<(LoginDataV, int)> {
    match sdec_str(b, i) {
        Some((username, j1)) => match sdec_str(b, j1) {
            Some((passwd, j2)) => match sdec_bool(b, j2) {
                Some((signup, j3)) => match sdec_str(b, j3) {
                    Some((client_ver, j4)) => Some(
                        (LoginDataV { username, passwd, signup, client_ver }, j4),
                    ),
                    None => None,
                },
                None => None,
            },
            None => None,
        },
        None => None,
    }
}

pub fn enc_login(out: &mut Vec<u8>, l: &LoginData)
    ensures
        final(out)@ == old(out)@ + spec_enc_login(l@),
{
    enc_str(out, l.username.as_str());
    enc_str(out, l.passwd.as_str());
    enc_bool(out, l.signup);
    enc_str(out, l.client_ver.as_str());
    proof {
        assert(final(out)@ =~= old(out)@ + spec_enc_login(l@));
    }
}

pub fn dec_login(b: &[u8], i: usize) -> (r: Result<(LoginData, usize), DecodeError>)
    ensures
        match r {
            Ok(p) => {
                &&& sdec_login(b@, i as int) matches Some(q)
                &&& q.0 == p.0@
                &&& q.1 == p.1 as int
                &&& p.1 <= b@.len()
                &&& p.0@.wf()
            },
            Err(_) => sdec_login(b@, i as int) is None,
        },
{
    let (username, j1) = match dec_str(b, i) {
        Ok(p) => p,
        Err(e) => {
            return Err(e);
        },
    };
    let (passwd, j2) = match dec_str(b, j1) {
        Ok(p) => p,
        Err(e) => {
            return Err(e);
        },
    };
    let (signup, j3) = match dec_bool(b, j2) {
        Ok(p) => p,
        Err(e) => {
            return Err(e);
        },
    };
    let (client_ver, j4) = match dec_str(b, j3) {
        Ok(p) => p,
        Err(e) => {
            return Err(e);
        },
    };
    Ok((LoginData { username, passwd, signup, client_ver }, j4))
}

/// Decoding an encoded login record in place recovers it.
pub proof fn lemma_dec_enc_login(b: Seq<u8>, i: int, v: LoginDataV)
    requires
        0 <= i,
        v.wf(),
        i + spec_enc_login(v).len() <= b.len(),
        b.subrange(i, i + spec_enc_login(v).len()) == spec_enc_login(v),
    ensures
        sdec_login(b, i) == Some((v, i + spec_enc_login(v).len())),
{
    let s1 = spec_enc_str(v.username);
    let s2 = spec_enc_str(v.passwd);
    let s3 = spec_enc_bool(v.signup);
    let s4 = spec_enc_str(v.client_ver);
    assert(b.subrange(i, i + s1.len() + (s2 + s3 + s4).len()) =~= s1 + (s2 + s3 + s4));
    lemma_subrange_split(b, i, s1, s2 + s3 + s4);
    let i1 = i + s1.len();
    assert(b.subrange(i1, i1 + s2.len() + (s3 + s4).len()) =~= s2 + (s3 + s4));
    lemma_subrange_split(b, i1, s2, s3 + s4);
    let i2 = i1 + s2.len();
    assert(b.subrange(i2, i2 + s3.len() + s4.len()) =~= s3 + s4);
    lemma_subrange_split(b, i2, s3, s4);
    let i3 = i2 + s3.len();
    lemma_dec_enc_str(b, i, v.username);
    lemma_dec_enc_str(b, i1, v.passwd);
    lemma_dec_enc_bool(b, i2, v.signup);
    lemma_dec_enc_str(b, i3, v.client_ver);
}

pub open spec fn spec_enc_item(v: ItemDataV) -> Seq<u8> {
    spec_enc_str(v.name) + spec_u32_to_le_bytes(v.level) + spec_u32_to_le_bytes(v.itype)
        + spec_u32_to_le_bytes(v.rarity) + (match v.damage {
        Some(d) => seq![0u8] + spec_u32_to_le_bytes(d),
        None => seq![1u8] + spec_u32_to_le_bytes(v.defense->Some_0),
    })
}

pub open spec fn sdec_item(b: Seq<u8>, i: int) -> Option<(ItemDataV, int)> {
    match sdec_str(b, i) {
        Some((name, j1)) => match sdec_u32(b, j1) {
            Some((level, j2)) => match sdec_u32(b, j2) {
                Some((itype, j3)) => match sdec_u32(b, j3) {
                    Some((rarity, j4)) => match sdec_byte(b, j4) {
                        Some((t, j5)) => match sdec_u32(b, j5) {
                            Some((stat, j6)) => {
                                if t == 0 {
                                    Some(
                                        (
                                            ItemDataV {
                                                name,
                                                level,
                                                itype,
                                                rarity,
                                                damage: Some(stat),
                                                defense: None,
                                            },
                                            j6,
                                        ),
                                    )
                                } else if t == 1 {
                                    Some(
                                        (
                                            ItemDataV {
                                                name,
                                                level,
                                                itype,
                                                rarity,
                                                damage: None,
                                                defense: Some(stat),
                                            },
                                            j6,
                                        ),
                                    )
                                } else {
                                    None
                                }
                            },
                            None => None,
                        },
                        None => None,
                    },
                    None => None,
                },
                None => None,
            },
            None => None,
        },
        None => None,
    }
}

pub fn enc_item(out: &mut Vec<u8>, d: &ItemData)
    requires
        d@.wf(),
    ensures
        final(out)@ == old(out)@ + spec_enc_item(d@),
{
    enc_str(out, d.name.as_str());
    enc_u32(out, d.level);
    enc_u32(out, d.itype);
    enc_u32(out, d.rarity);
    match d.damage {
        Some(dmg) => {
            enc_byte(out, 0);
            enc_u32(out, dmg);
        },
        None => {
            enc_byte(out, 1);
            enc_u32(out, match d.defense {
                Some(df) => df,
                None => 0,
            });
        },
    }
    proof {
        assert(final(out)@ =~= old(out)@ + spec_enc_item(d@));
    }
}

pub fn dec_item(b: &[u8], i: usize) -> (r: Result<(ItemData, usize), DecodeError>)
    ensures
        match r {
            Ok(p) => {
                &&& sdec_item(b@, i as int) matches Some(q)
                &&& q.0 == p.0@
                &&& q.1 == p.1 as int
                &&& p.1 <= b@.len()
                &&& p.0@.wf()
            },
            Err(_) => sdec_item(b@, i as int) is None,
        },
{
    let (name, j1) = match dec_str(b, i) {
        Ok(p) => p,
        Err(e) => {
            return Err(e);
        },
    };
    let (level, j2) = match dec_u32(b, j1) {
        Ok(p) => p,
        Err(e) => {
            return Err(e);
        },
    };
    let (itype, j3) = match dec_u32(b, j2) {
        Ok(p) => p,
        Err(e) => {
            return Err(e);
        },
    };
    let (rarity, j4) = match dec_u32(b, j3) {
        Ok(p) => p,
        Err(e) => {
            return Err(e);
        },
    };
    let (t, j5) = match dec_byte(b, j4) {
        Ok(p) => p,
        Err(e) => {
            return Err(e);
        },
    };
    let (stat, j6) = match dec_u32(b, j5) {
        Ok(p) => p,
        Err(e) => {
            return Err(e);
        },
    };
    if t == 0 {
        Ok((ItemData { name, level, itype, rarity, damage: Some(stat), defense: None }, j6))
    } else if t == 1 {
        Ok((ItemData { name, level, itype, rarity, damage: None, defense: Some(stat) }, j6))
    } else {
        Err(DecodeError::UnknownTag)
    }
}

/// Decoding an encoded item record in place recovers it.
pub proof fn lemma_dec_enc_item(b: Seq<u8>, i: int, v: ItemDataV)
    requires
        0 <= i,
        v.wf(),
        i + spec_enc_item(v).len() <= b.len(),
        b.subrange(i, i + spec_enc_item(v).len()) == spec_enc_item(v),
    ensures
        sdec_item(b, i) == Some((v, i + spec_enc_item(v).len())),
{
    let s1 = spec_enc_str(v.name);
    let s2 = spec_u32_to_le_bytes(v.level);
    let s3 = spec_u32_to_le_bytes(v.itype);
    let s4 = spec_u32_to_le_bytes(v.rarity);
    let t = if v.damage is Some {
        0u8
    } else {
        1u8
    };
    let stat = if v.damage is Some {
        v.damage->Some_0
    } else {
        v.defense->Some_0
    };
    let s5 = seq![t];
    let s6 = spec_u32_to_le_bytes(stat);
    vstd::bytes::lemma_auto_spec_u32_to_from_le_bytes();
    assert(s2.len() == 4 && s3.len() == 4 && s4.len() == 4 && s6.len() == 4);
    assert(b.subrange(i, i + s1.len() + (s2 + s3 + s4 + s5 + s6).len()) =~= s1 + (s2 + s3 + s4 + s5
        + s6));
    lemma_subrange_split(b, i, s1, s2 + s3 + s4 + s5 + s6);
    let i1 = i + s1.len();
    assert(b.subrange(i1, i1 + s2.len() + (s3 + s4 + s5 + s6).len()) =~= s2 + (s3 + s4 + s5 + s6));
    lemma_subrange_split(b, i1, s2, s3 + s4 + s5 + s6);
    let i2 = i1 + s2.len();
    assert(b.subrange(i2, i2 + s3.len() + (s4 + s5 + s6).len()) =~= s3 + (s4 + s5 + s6));
    lemma_subrange_split(b, i2, s3, s4 + s5 + s6);
    let i3 = i2 + s3.len();
    assert(b.subrange(i3, i3 + s4.len() + (s5 + s6).len()) =~= s4 + (s5 + s6));
    lemma_subrange_split(b, i3, s4, s5 + s6);
    let i4 = i3 + s4.len();
    assert(b.subrange(i4, i4 + s5.len() + s6.len()) =~= s5 + s6);
    lemma_subrange_split(b, i4, s5, s6);
    let i5 = i4 + s5.len();
    lemma_dec_enc_str(b, i, v.name);
    lemma_dec_enc_u32(b, i1, v.level);
    lemma_dec_enc_u32(b, i2, v.itype);
    lemma_dec_enc_u32(b, i3, v.rarity);
    lemma_dec_enc_byte(b, i4, t);
    lemma_dec_enc_u32(b, i5, stat);
}

pub open spec fn spec_enc_player(v: PlayerDataV) -> Seq<u8> {
    spec_u32_to_le_bytes(v.level) + spec_u32_to_le_bytes(v.exp) + spec_enc_str(v.region)
        + spec_u32_to_le_bytes(v.steps) + spec_u32_to_le_bytes(v.health)
}

pub open spec fn sdec_player(b: Seq<u8>, i: int) -> Option<(PlayerDataV, int)> {
    match sdec_u32(b, i) {
        Some((level, j1)) => match sdec_u32(b, j1) {
            Some((exp, j2)) => match sdec_str(b, j2) {
                Some((region, j3)) => match sdec_u32(b, j3) {
                    Some((steps, j4)) => match sdec_u32(b, j4) {
                        Some((health, j5)) => Some(
                            (PlayerDataV { level, exp, region, steps, health }, j5),
                        ),
                        None => None,
                    },
                    None => None,
                },
                None => None,
            },
            None => None,
        },
        None => None,
    }
}

pub fn enc_player(out: &mut Vec<u8>, p: &PlayerData)
    ensures
        final(out)@ == old(out)@ + spec_enc_player(p@),
{
    enc_u32(out, p.level);
    enc_u32(out, p.exp);
    enc_str(out, p.region.as_str());
    enc_u32(out, p.steps);
    enc_u32(out, p.health);
    proof {
        assert(final(out)@ =~= old(out)@ + spec_enc_player(p@));
    }
}

pub fn dec_player(b: &[u8], i: usize) -> (r: Result<(PlayerData, usize), DecodeError>)
    ensures
        match r {
            Ok(p) => {
                &&& sdec_player(b@, i as int) matches Some(q)
                &&& q.0 == p.0@
                &&& q.1 == p.1 as int
                &&& p.1 <= b@.len()
                &&& p.0@.wf()
            },
            Err(_) => sdec_player(b@, i as int) is None,
        },
{
    let (level, j1) = match dec_u32(b, i) {
        Ok(p) => p,
        Err(e) => {
            return Err(e);
        },
    };
    let (exp, j2) = match dec_u32(b, j1) {
        Ok(p) => p,
        Err(e) => {
            return Err(e);
        },
    };
    let (region, j3) = match dec_str(b, j2) {
        Ok(p) => p,
        Err(e) => {
            return Err(e);
        },
    };
    let (steps, j4) = match dec_u32(b, j3) {
        Ok(p) => p,
        Err(e) => {
            return Err(e);
        },
    };
    let (health, j5) = match dec_u32(b, j4) {
        Ok(p) => p,
        Err(e) => {
            return Err(e);
        },
    };
    Ok((PlayerData { level, exp, region, steps, health }, j5))
}

/// Decoding an encoded player snapshot in place recovers it.
pub proof fn lemma_dec_enc_player(b: Seq<u8>, i: int, v: PlayerDataV)
    requires
        0 <= i,
        v.wf(),
        i + spec_enc_player(v).len() <= b.len(),
        b.subrange(i, i + spec_enc_player(v).len()) == spec_enc_player(v),
    ensures
        sdec_player(b, i) == Some((v, i + spec_enc_player(v).len())),
{
    let s1 = spec_u32_to_le_bytes(v.level);
    let s2 = spec_u32_to_le_bytes(v.exp);
    let s3 = spec_enc_str(v.region);
    let s4 = spec_u32_to_le_bytes(v.steps);
    let s5 = spec_u32_to_le_bytes(v.health);
    vstd::bytes::lemma_auto_spec_u32_to_from_le_bytes();
    assert(s1.len() == 4 && s2.len() == 4 && s4.len() == 4 && s5.len() == 4);
    assert(b.subrange(i, i + s1.len() + (s2 + s3 + s4 + s5).len()) =~= s1 + (s2 + s3 + s4 + s5));
    lemma_subrange_split(b, i, s1, s2 + s3 + s4 + s5);
    let i1 = i + s1.len();
    assert(b.subrange(i1, i1 + s2.len() + (s3 + s4 + s5).len()) =~= s2 + (s3 + s4 + s5));
    lemma_subrange_split(b, i1, s2, s3 + s4 + s5);
    let i2 = i1 + s2.len();
    assert(b.subrange(i2, i2 + s3.len() + (s4 + s5).len()) =~= s3 + (s4 + s5));
    lemma_subrange_split(b, i2, s3, s4 + s5);
    let i3 = i2 + s3.len();
    assert(b.subrange(i3, i3 + s4.len() + s5.len()) =~= s4 + s5);
    lemma_subrange_split(b, i3, s4, s5);
    let i4 = i3 + s4.len();
    lemma_dec_enc_u32(b, i, v.level);
    lemma_dec_enc_u32(b, i1, v.exp);
    lemma_dec_enc_str(b, i2, v.region);
    lemma_dec_enc_u32(b, i3, v.steps);
    lemma_dec_enc_u32(b, i4, v.health);
}

pub open spec fn spec_enc_enemy(v: EnemyDataV) -> Seq<u8> {
    spec_enc_str(v.name) + spec_enc_str(v.race) + spec_u32_to_le_bytes(v.level)
        + spec_u32_to_le_bytes(v.health)
}

pub open spec fn sdec_enemy(b: Seq<u8>, i: int) -> Option<(EnemyDataV, int)> {
    match sdec_str(b, i) {
        Some((name, j1)) => match sdec_str(b, j1) {
            Some((race, j2)) => match sdec_u32(b, j2) {
                Some((level, j3)) => match sdec_u32(b, j3) {
                    Some((health, j4)) => Some((EnemyDataV { name, race, level, health }, j4)),
                    None => None,
                },
                None => None,
            },
            None => None,
        },
        None => None,
    }
}

pub fn enc_enemy(out: &mut Vec<u8>, e: &EnemyData)
    ensures
        final(out)@ == old(out)@ + spec_enc_enemy(e@),
{
    enc_str(out, e.name.as_str());
    enc_str(out, e.race.as_str());
    enc_u32(out, e.level);
    enc_u32(out, e.health);
    proof {
        assert(final(out)@ =~= old(out)@ + spec_enc_enemy(e@));
    }
}

pub fn dec_enemy(b: &[u8], i: usize) -> (r: Result<(EnemyData, usize), DecodeError>)
    ensures
        match r {
            Ok(p) => {
                &&& sdec_enemy(b@, i as int) matches Some(q)
                &&& q.0 == p.0@
                &&& q.1 == p.1 as int
                &&& p.1 <= b@.len()
                &&& p.0@.wf()
            },
            Err(_) => sdec_enemy(b@, i as int) is None,
        },
{
    let (name, j1) = match dec_str(b, i) {
        Ok(p) => p,
        Err(e) => {
            return Err(e);
        },
    };
    let (race, j2) = match dec_str(b, j1) {
        Ok(p) => p,
        Err(e) => {
            return Err(e);
        },
    };
    let (level, j3) = match dec_u32(b, j2) {
        Ok(p) => p,
        Err(e) => {
            return Err(e);
        },
    };
    let (health, j4) = match dec_u32(b, j3) {
        Ok(p) => p,
        Err(e) => {
            return Err(e);
        },
    };
    Ok((EnemyData { name, race, level, health }, j4))
}

/// Decoding an encoded enemy record in place recovers it.
pub proof fn lemma_dec_enc_enemy(b: Seq<u8>, i: int, v: EnemyDataV)
    requires
        0 <= i,
        v.wf(),
        i + spec_enc_enemy(v).len() <= b.len(),
        b.subrange(i, i + spec_enc_enemy(v).len()) == spec_enc_enemy(v),
    ensures
        sdec_enemy(b, i) == Some((v, i + spec_enc_enemy(v).len())),
{
    let s1 = spec_enc_str(v.name);
    let s2 = spec_enc_str(v.race);
    let s3 = spec_u32_to_le_bytes(v.level);
    let s4 = spec_u32_to_le_bytes(v.health);
    vstd::bytes::lemma_auto_spec_u32_to_from_le_bytes();
    assert(s3.len() == 4 && s4.len() == 4);
    assert(b.subrange(i, i + s1.len() + (s2 + s3 + s4).len()) =~= s1 + (s2 + s3 + s4));
    lemma_subrange_split(b, i, s1, s2 + s3 + s4);
    let i1 = i + s1.len();
    assert(b.subrange(i1, i1 + s2.len() + (s3 + s4).len()) =~= s2 + (s3 + s4));
    lemma_subrange_split(b, i1, s2, s3 + s4);
    let i2 = i1 + s2.len();
    assert(b.subrange(i2, i2 + s3.len() + s4.len()) =~= s3 + s4);
    lemma_subrange_split(b, i2, s3, s4);
    let i3 = i2 + s3.len();
    lemma_dec_enc_str(b, i, v.name);
    lemma_dec_enc_str(b, i1, v.race);
    lemma_dec_enc_u32(b, i2, v.level);
    lemma_dec_enc_u32(b, i3, v.health);
}

} // verus!
