//! The database rules that are plain computation: playlist privacy values,
//! the list of schema migrations, which of them are still to run, and the
//! statements of a migration script.
//!
//! The queries themselves are made by the caller.

use vstd::prelude::*;
use crate::text::{all_white, is_blank, split_char, split_seq, str_eq, views};

verus! {

/// Who may see a playlist.
#[derive(Debug, Clone, Copy, PartialEq, Eq, Structural)]
pub enum PlaylistPrivacy {
    Public,
    Unlisted,
    Private,
}

/// The stored name of a privacy value.
pub open spec fn privacy_name(p: PlaylistPrivacy) -> Seq<char> {
    match p {
        PlaylistPrivacy::Public => "Public"@,
        PlaylistPrivacy::Unlisted => "Unlisted"@,
        PlaylistPrivacy::Private => "Private"@,
    }
}

/// The privacy value of a stored name; any name that is not one of the three
/// is private.
pub open spec fn privacy_of(s: Seq<char>) -> PlaylistPrivacy {
    if s == "Public"@ {
        PlaylistPrivacy::Public
    } else if s == "Unlisted"@ {
        PlaylistPrivacy::Unlisted
    } else {
        PlaylistPrivacy::Private
    }
}

impl PlaylistPrivacy {
    /// The privacy value of a stored name.
    pub fn from_str(s: &str) -> (r: PlaylistPrivacy)
        ensures
            r == privacy_of(s@),
    {
        if str_eq(s, "Public") {
            PlaylistPrivacy::Public
        } else if str_eq(s, "Unlisted") {
            PlaylistPrivacy::Unlisted
        } else {
            PlaylistPrivacy::Private
        }
    }

    /// The stored name of this privacy value.
    pub fn as_str(&self) -> (r: &'static str)
        ensures
            r@ == privacy_name(*self),
    {
        match self {
            PlaylistPrivacy::Public => "Public",
            PlaylistPrivacy::Unlisted => "Unlisted",
            PlaylistPrivacy::Private => "Private",
        }
    }
}

/// Reading back the stored name of a privacy value gives the same value.
pub proof fn lemma_privacy_round_trip(p: PlaylistPrivacy)
    ensures
        privacy_of(privacy_name(p)) == p,
{
    reveal_strlit("Public");
    reveal_strlit("Unlisted");
    reveal_strlit("Private");
    assert("Unlisted"@.len() != "Public"@.len());
    assert("Private"@.len() != "Public"@.len());
    assert("Private"@.len() != "Unlisted"@.len());
}

/// A schema migration: its version and its name.
#[derive(Debug, Clone)]
pub struct Migration {
    pub version: i64,
    pub name: String,
}

/// The plain values of a list of migrations.
pub open spec fn migration_views(ms: Seq<Migration>) -> Seq<(i64, Seq<char>)> {
    ms.map_values(|m: Migration| (m.version, m.name@))
}

/// The migrations of the schema, in the order in which they run.
pub open spec fn all_migrations() -> Seq<(i64, Seq<char>)> {
    seq![
        (1i64, "create_channels_table"@),
        (2i64, "create_videos_table"@),
        (3i64, "create_channel_videos_table"@),
        (4i64, "create_users_table"@),
        (5i64, "create_session_ids_table"@),
        (6i64, "create_nonces_table"@),
        (7i64, "create_annotations_table"@),
        (8i64, "create_playlists_table"@),
        (9i64, "create_playlist_videos_table"@),
        (10i64, "make_videos_unlogged"@),
    ]
}

/// The migrations of `ms` whose version is not among `applied`, in order.
pub open spec fn pending_of(ms: Seq<(i64, Seq<char>)>, applied: Seq<i64>) -> Seq<(i64, Seq<char>)>
    decreases ms.len(),
{
    if ms.len() == 0 {
        Seq::empty()
    } else {
        let p = pending_of(ms.drop_last(), applied);
        if applied.contains(ms.last().0) {
            p
        } else {
            p.push(ms.last())
        }
    }
}

/// The versions of a list of migrations.
pub open spec fn versions_of(ms: Seq<(i64, Seq<char>)>) -> Seq<i64> {
    ms.map_values(|m: (i64, Seq<char>)| m.0)
}

/// Schema migrations.
pub struct Migrations;

fn push_migration(ms: &mut Vec<Migration>, version: i64, name: &str)
    ensures
        migration_views(final(ms)@) == migration_views(old(ms)@).push((version, name@)),
{
    ms.push(Migration { version, name: name.to_owned() });
    assert(migration_views(final(ms)@) =~= migration_views(old(ms)@).push((version, name@)));
}

fn contains_version(applied: &Vec<i64>, v: i64) -> (r: bool)
    ensures
        r == applied@.contains(v),
{
    let mut i: usize = 0;
    while i < applied.len()
        invariant
            i <= applied@.len(),
            forall|j: int| 0 <= j < i ==> applied@[j] != v,
        decreases applied@.len() - i,
    {
        if applied[i] == v {
            return true;
        }
        i = i + 1;
    }
    false
}

impl Migrations {
    /// The migrations of the schema, in the order in which they run.
    pub fn get_migrations() -> (r: Vec<Migration>)
        ensures
            migration_views(r@) == all_migrations(),
    {
        let mut ms: Vec<Migration> = Vec::new();
        push_migration(&mut ms, 1, "create_channels_table");
        push_migration(&mut ms, 2, "create_videos_table");
        push_migration(&mut ms, 3, "create_channel_videos_table");
        push_migration(&mut ms, 4, "create_users_table");
        push_migration(&mut ms, 5, "create_session_ids_table");
        push_migration(&mut ms, 6, "create_nonces_table");
        push_migration(&mut ms, 7, "create_annotations_table");
        push_migration(&mut ms, 8, "create_playlists_table");
        push_migration(&mut ms, 9, "create_playlist_videos_table");
        push_migration(&mut ms, 10, "make_videos_unlogged");
        assert(migration_views(ms@) =~= all_migrations());
        ms
    }

    /// The migrations of `migrations` whose version is not among the
    /// `applied` ones, in order.
    pub fn pending(migrations: Vec<Migration>, applied: &Vec<i64>) -> (r: Vec<Migration>)
        ensures
            migration_views(r@) == pending_of(migration_views(migrations@), applied@),
    {
        let ghost ms = migration_views(migrations@);
        let mut out: Vec<Migration> = Vec::new();
        let mut i: usize = 0;
        let n = migrations.len();
        let rest = migrations;
        while i < n
            invariant
                n == ms.len(),
                i <= n,
                rest@.len() == n,
                migration_views(rest@) == ms,
                migration_views(out@) == pending_of(ms.take(i as int), applied@),
            decreases n - i,
        {
            let ghost mv = ms[i as int];
            assert(ms.take(i + 1).drop_last() =~= ms.take(i as int));
            assert(ms.take(i + 1).last() == mv);
            assert(mv == (rest@[i as int].version, rest@[i as int].name@));
            if !contains_version(applied, rest[i].version) {
                let version = rest[i].version;
                let name = rest[i].name.clone();
                push_migration(&mut out, version, name.as_str());
            }
            i = i + 1;
        }
        assert(ms.take(n as int) =~= ms);
        out
    }
}

proof fn lemma_pending_covers(ms: Seq<(i64, Seq<char>)>, applied: Seq<i64>, i: int)
    requires
        0 <= i < ms.len(),
    ensures
        applied.contains(ms[i].0) || versions_of(pending_of(ms, applied)).contains(ms[i].0),
    decreases ms.len(),
{
    let p = pending_of(ms.drop_last(), applied);
    if i < ms.len() - 1 {
        lemma_pending_covers(ms.drop_last(), applied, i);
        assert(ms.drop_last()[i] == ms[i]);
        if !applied.contains(ms[i].0) {
            let k = choose|k: int| 0 <= k < versions_of(p).len() && versions_of(p)[k] == ms[i].0;
            if !applied.contains(ms.last().0) {
                assert(versions_of(pending_of(ms, applied))[k] == ms[i].0);
            }
        }
    } else if !applied.contains(ms.last().0) {
        let q = pending_of(ms, applied);
        assert(versions_of(q)[q.len() - 1] == ms.last().0);
    }
}

proof fn lemma_nothing_pending(ms: Seq<(i64, Seq<char>)>, applied: Seq<i64>)
    requires
        forall|i: int| 0 <= i < ms.len() ==> applied.contains(#[trigger] ms[i].0),
    ensures
        pending_of(ms, applied) == Seq::<(i64, Seq<char>)>::empty(),
    decreases ms.len(),
{
    if ms.len() > 0 {
        assert forall|i: int| 0 <= i < ms.drop_last().len() implies applied.contains(
            #[trigger] ms.drop_last()[i].0,
        ) by {
            assert(ms.drop_last()[i] == ms[i]);
        }
        lemma_nothing_pending(ms.drop_last(), applied);
        assert(applied.contains(ms[ms.len() - 1].0));
    }
}

/// Once the pending migrations have run and their versions are recorded
/// beside those already applied, no migration is pending any more.
pub proof fn lemma_migrated_nothing_pending(ms: Seq<(i64, Seq<char>)>, applied: Seq<i64>)
    ensures
        pending_of(ms, applied + versions_of(pending_of(ms, applied))) == Seq::<(i64, Seq<char>)>::empty(),
{
    let v = versions_of(pending_of(ms, applied));
    let all = applied + v;
    assert forall|i: int| 0 <= i < ms.len() implies all.contains(#[trigger] ms[i].0) by {
        lemma_pending_covers(ms, applied, i);
        if applied.contains(ms[i].0) {
            let k = choose|k: int| 0 <= k < applied.len() && applied[k] == ms[i].0;
            assert(all[k] == ms[i].0);
        } else {
            let k = choose|k: int| 0 <= k < v.len() && v[k] == ms[i].0;
            assert(all[applied.len() + k] == ms[i].0);
        }
    }
    lemma_nothing_pending(ms, all);
}

/// The pieces of `ps` that are not blank, in order.
pub open spec fn non_blank(ps: Seq<Seq<char>>) -> Seq<Seq<char>>
    decreases ps.len(),
{
    if ps.len() == 0 {
        Seq::empty()
    } else if all_white(ps.last()) {
        non_blank(ps.drop_last())
    } else {
        non_blank(ps.drop_last()).push(ps.last())
    }
}

/// The statements of a migration script: its `;`-separated pieces that are
/// not blank, in order.
pub fn migration_statements(sql: &str) -> (r: Vec<String>)
    ensures
        views(r@) == non_blank(split_seq(sql@, ';')),
{
    let pieces = split_char(sql, ';');
    let ghost ps = split_seq(sql@, ';');
    let mut out: Vec<String> = Vec::new();
    let mut i: usize = 0;
    while i < pieces.len()
        invariant
            views(pieces@) == ps,
            i <= pieces@.len(),
            views(out@) == non_blank(ps.take(i as int)),
        decreases pieces@.len() - i,
    {
        assert(ps.take(i + 1).drop_last() =~= ps.take(i as int));
        assert(ps.take(i + 1).last() == pieces@[i as int]@);
        if !is_blank(pieces[i].as_str()) {
            let ghost before = out@;
            out.push(pieces[i].clone());
            assert(views(out@) =~= views(before).push(pieces@[i as int]@));
        }
        i = i + 1;
    }
    assert(ps.take(pieces@.len() as int) =~= ps);
    out
}

} // verus!
