//! The credential store: usernames mapped to password-hash records, read
//! once from `username:hash` lines and never changed afterwards.
use vstd::prelude::*;
use crate::text::{
    char_vec, count_char, count_of, find_char, index_of, lemma_lines_no_break,
    lemma_single_occurrence, lines, lines_of, views_of,
};

verus! {

/// One line of the credential file.
pub struct CredentialRecord {
    pub username: String,
    pub password_hash: String,
}

/// Usernames mapped to password hashes; each username appears once.
pub struct CredentialStore {
    records: Vec<CredentialRecord>,
}

/// The map that a list of records describes, a later record for a username
/// replacing an earlier one.
pub open spec fn records_map(rs: Seq<CredentialRecord>) -> Map<Seq<char>, Seq<char>>
    decreases rs.len(),
{
    if rs.len() == 0 {
        Map::empty()
    } else {
        records_map(rs.drop_last()).insert(rs.last().username@, rs.last().password_hash@)
    }
}

/// No username occurs twice.
pub open spec fn unique_names(rs: Seq<CredentialRecord>) -> bool {
    forall|i: int, j: int|
        0 <= i < rs.len() && 0 <= j < rs.len() && i != j ==> rs[i].username@ != rs[j].username@
}

/// A field of the credential file: neither a line break nor a separator in it.
pub open spec fn is_field(s: Seq<char>) -> bool {
    !s.contains('\n') && !s.contains(':')
}

/// What any store holds: usernames and hashes that are fields of the file.
pub open spec fn fields_only(m: Map<Seq<char>, Seq<char>>) -> bool {
    forall|k: Seq<char>| #[trigger] m.contains_key(k) ==> is_field(k) && is_field(m[k])
}

/// A line of the credential file that holds a record: exactly one separator.
pub open spec fn is_record_line(l: Seq<char>) -> bool {
    count_of(l, ':') == 1
}

/// The username of a record line.
pub open spec fn line_user(l: Seq<char>) -> Seq<char> {
    l.take(index_of(l, ':'))
}

/// The password hash of a record line.
pub open spec fn line_hash(l: Seq<char>) -> Seq<char> {
    l.skip(index_of(l, ':') + 1)
}

/// The store that the lines of a credential file describe: each line with
/// exactly one `:` is a record, every other line is skipped, and a later
/// record for a username replaces an earlier one.
pub open spec fn store_of_lines(ls: Seq<Seq<char>>) -> Map<Seq<char>, Seq<char>>
    decreases ls.len(),
{
    if ls.len() == 0 {
        Map::empty()
    } else {
        let m = store_of_lines(ls.drop_last());
        let l = ls.last();
        if is_record_line(l) {
            m.insert(line_user(l), line_hash(l))
        } else {
            m
        }
    }
}

/// The store that the text of a credential file describes.
pub open spec fn store_of_text(content: Seq<char>) -> Map<Seq<char>, Seq<char>> {
    store_of_lines(lines_of(content))
}

impl View for CredentialStore {
    type V = Map<Seq<char>, Seq<char>>;

    closed spec fn view(&self) -> Map<Seq<char>, Seq<char>> {
        records_map(self.records@)
    }
}

proof fn lemma_records_domain(rs: Seq<CredentialRecord>, k: Seq<char>)
    ensures
        records_map(rs).contains_key(k) <==> exists|i: int|
            0 <= i < rs.len() && (#[trigger] rs[i]).username@ == k,
    decreases rs.len(),
{
    if rs.len() > 0 {
        lemma_records_domain(rs.drop_last(), k);
        if records_map(rs.drop_last()).contains_key(k) {
            let i = choose|i: int| 0 <= i < rs.drop_last().len() && (#[trigger] rs.drop_last()[i]).username@ == k;
            assert(rs[i] == rs.drop_last()[i]);
        }
        if exists|i: int| 0 <= i < rs.len() && (#[trigger] rs[i]).username@ == k {
            let i = choose|i: int| 0 <= i < rs.len() && (#[trigger] rs[i]).username@ == k;
            if i < rs.len() - 1 {
                assert(rs.drop_last()[i] == rs[i]);
            }
        }
    }
}

proof fn lemma_records_value(rs: Seq<CredentialRecord>, i: int)
    requires
        unique_names(rs),
        0 <= i < rs.len(),
    ensures
        records_map(rs).contains_key(rs[i].username@),
        records_map(rs)[rs[i].username@] == rs[i].password_hash@,
    decreases rs.len(),
{
    if i < rs.len() - 1 {
        let p = rs.drop_last();
        assert(p[i] == rs[i]);
        assert(unique_names(p)) by {
            assert forall|a: int, b: int|
                0 <= a < p.len() && 0 <= b < p.len() && a != b implies p[a].username@
                != p[b].username@ by {
                assert(p[a] == rs[a] && p[b] == rs[b]);
            }
        }
        lemma_records_value(p, i);
        assert(rs.last() == rs[rs.len() - 1]);
    }
}

proof fn lemma_records_update(rs: Seq<CredentialRecord>, i: int, r: CredentialRecord)
    requires
        unique_names(rs),
        0 <= i < rs.len(),
        r.username@ == rs[i].username@,
    ensures
        unique_names(rs.update(i, r)),
        records_map(rs.update(i, r)) == records_map(rs).insert(r.username@, r.password_hash@),
{
    let u = rs.update(i, r);
    assert(unique_names(u)) by {
        assert forall|a: int, b: int|
            0 <= a < u.len() && 0 <= b < u.len() && a != b implies u[a].username@
            != u[b].username@ by {
            if a != i && b != i {
                assert(u[a] == rs[a] && u[b] == rs[b]);
            } else if a == i {
                assert(u[b] == rs[b]);
            } else {
                assert(u[a] == rs[a]);
            }
        }
    }
    let m1 = records_map(u);
    let m2 = records_map(rs).insert(r.username@, r.password_hash@);
    assert forall|k: Seq<char>| m1.contains_key(k) <==> m2.contains_key(k) by {
        lemma_records_domain(u, k);
        lemma_records_domain(rs, k);
        if exists|j: int| 0 <= j < rs.len() && (#[trigger] rs[j]).username@ == k {
            let j = choose|j: int| 0 <= j < rs.len() && (#[trigger] rs[j]).username@ == k;
            if j != i {
                assert(u[j] == rs[j]);
            } else {
                assert(u[i] == r);
            }
        }
        if exists|j: int| 0 <= j < u.len() && (#[trigger] u[j]).username@ == k {
            let j = choose|j: int| 0 <= j < u.len() && (#[trigger] u[j]).username@ == k;
            if j != i {
                assert(u[j] == rs[j]);
            }
        }
    }
    assert forall|k: Seq<char>| #[trigger] m1.contains_key(k) implies m1[k] == m2[k] by {
        lemma_records_domain(u, k);
        let j = choose|j: int| 0 <= j < u.len() && (#[trigger] u[j]).username@ == k;
        lemma_records_value(u, j);
        if j != i {
            assert(u[j] == rs[j]);
            lemma_records_value(rs, j);
        }
    }
    assert(m1 =~= m2);
}

/// The records are well formed: no username twice, and no line break or
/// separator in any field.
pub open spec fn well_formed(rs: Seq<CredentialRecord>) -> bool {
    &&& unique_names(rs)
    &&& forall|i: int|
        0 <= i < rs.len() ==> is_field((#[trigger] rs[i]).username@) && is_field(
            rs[i].password_hash@,
        )
}

proof fn lemma_fields_only(rs: Seq<CredentialRecord>)
    requires
        well_formed(rs),
    ensures
        fields_only(records_map(rs)),
{
    assert forall|k: Seq<char>| #[trigger] records_map(rs).contains_key(k) implies is_field(k)
        && is_field(records_map(rs)[k]) by {
        lemma_records_domain(rs, k);
        let j = choose|j: int| 0 <= j < rs.len() && (#[trigger] rs[j]).username@ == k;
        lemma_records_value(rs, j);
    }
}

impl CredentialStore {
    #[verifier::type_invariant]
    spec fn inv(self) -> bool {
        well_formed(self.records@)
    }

    /// A store with no records.
    pub fn new() -> (r: CredentialStore)
        ensures
            r@ == Map::<Seq<char>, Seq<char>>::empty(),
    {
        CredentialStore { records: Vec::new() }
    }

    /// The number of usernames in the store.
    pub fn len(&self) -> (r: usize)
        ensures
            r == self@.len(),
    {
        proof {
            use_type_invariant(self);
            lemma_unique_len(self.records@);
        }
        self.records.len()
    }

    /// The position of the record for `username`, if there is one.
    fn position(&self, username: &String) -> (r: Option<usize>)
        ensures
            match r {
                Some(i) => i < self.records@.len() && self.records@[i as int].username@
                    == username@,
                None => !self@.contains_key(username@),
            },
    {
        let mut i: usize = 0;
        while i < self.records.len()
            invariant
                i <= self.records@.len(),
                forall|j: int| 0 <= j < i ==> (#[trigger] self.records@[j]).username@ != username@,
            decreases self.records.len() - i,
        {
            if self.records[i].username == *username {
                return Some(i);
            }
            i = i + 1;
        }
        proof {
            lemma_records_domain(self.records@, username@);
        }
        None
    }

    /// The password hash stored for `username`. Every stored username and
    /// hash is a field of the file.
    pub fn lookup(&self, username: &String) -> (r: Option<&String>)
        ensures
            match r {
                Some(h) => self@.contains_key(username@) && h@ == self@[username@],
                None => !self@.contains_key(username@),
            },
            fields_only(self@),
    {
        proof {
            use_type_invariant(self);
            lemma_fields_only(self.records@);
        }
        match self.position(username) {
            Some(i) => {
                proof {
                    lemma_records_value(self.records@, i as int);
                }
                Some(&self.records[i].password_hash)
            },
            None => None,
        }
    }

    /// This store with `username` recorded as `password_hash`, replacing an
    /// earlier record.
    fn with_record(self, username: String, password_hash: String) -> (r: CredentialStore)
        requires
            is_field(username@),
            is_field(password_hash@),
        ensures
            r@ == self@.insert(username@, password_hash@),
    {
        proof {
            use_type_invariant(&self);
        }
        let pos = self.position(&username);
        let CredentialStore { mut records } = self;
        match pos {
            Some(i) => {
                let r = CredentialRecord { username, password_hash };
                proof {
                    lemma_records_update(records@, i as int, r);
                }
                records.set(i, r);
            },
            None => {
                proof {
                    lemma_records_domain(records@, username@);
                }
                let r = CredentialRecord { username, password_hash };
                let ghost before = records@;
                records.push(r);
                assert(records@.drop_last() =~= before);
            },
        }
        CredentialStore { records }
    }
}

proof fn lemma_unique_len(rs: Seq<CredentialRecord>)
    requires
        unique_names(rs),
    ensures
        records_map(rs).len() == rs.len(),
        records_map(rs).dom().finite(),
    decreases rs.len(),
{
    if rs.len() > 0 {
        let p = rs.drop_last();
        assert(unique_names(p)) by {
            assert forall|a: int, b: int|
                0 <= a < p.len() && 0 <= b < p.len() && a != b implies p[a].username@
                != p[b].username@ by {
                assert(p[a] == rs[a] && p[b] == rs[b]);
            }
        }
        lemma_unique_len(p);
        lemma_records_domain(p, rs.last().username@);
        if records_map(p).contains_key(rs.last().username@) {
            let j = choose|j: int| 0 <= j < p.len() && (#[trigger] p[j]).username@ == rs.last().username@;
            assert(p[j] == rs[j]);
            assert(false);
        }
    }
}

/// Reads the records of a credential file. Each line with exactly one `:`
/// is a record `username:hash`; any other line is skipped without stopping
/// the load. A later record for a username replaces an earlier one.
pub fn parse_htpasswd(content: &str) -> (r: CredentialStore)
    ensures
        r@ == store_of_text(content@),
{
    let ls = lines(content);
    let ghost model = lines_of(content@);
    let mut store = CredentialStore::new();
    assert(views_of(ls@).len() == ls@.len());
    let mut i: usize = 0;
    while i < ls.len()
        invariant
            i <= ls@.len(),
            views_of(ls@) == model,
            model.len() == ls@.len(),
            model == lines_of(content@),
            store@ == store_of_lines(model.take(i as int)),
        decreases ls.len() - i,
    {
        let line = ls[i];
        assert(line@ == model[i as int]);
        assert(model.take(i + 1).drop_last() =~= model.take(i as int));
        let cs = char_vec(line);
        if count_char(&cs, ':') == 1 {
            let k = find_char(&cs, ':');
            proof {
                lemma_single_occurrence(cs@, ':');
            }
            let user = line.substring_char(0, k).to_owned();
            let hash = line.substring_char(k + 1, cs.len()).to_owned();
            proof {
                assert(line_user(cs@) =~= cs@.subrange(0, k as int));
                assert(line_hash(cs@) =~= cs@.subrange(k + 1, cs@.len() as int));
                lemma_lines_no_break(content@);
                assert(!lines_of(content@)[i as int].contains('\n'));
            }
            store = store.with_record(user, hash);
        }
        i = i + 1;
    }
    assert(model.take(i as int) =~= model);
    store
}

/// The record lines among `ls`, in order.
pub open spec fn record_lines(ls: Seq<Seq<char>>) -> Seq<Seq<char>>
    decreases ls.len(),
{
    if ls.len() == 0 {
        Seq::empty()
    } else {
        let r = record_lines(ls.drop_last());
        if is_record_line(ls.last()) {
            r.push(ls.last())
        } else {
            r
        }
    }
}

/// Lines that are not records are skipped and nothing more: the store is
/// the one that the record lines alone describe.
pub proof fn lemma_other_lines_skipped(ls: Seq<Seq<char>>)
    ensures
        store_of_lines(ls) == store_of_lines(record_lines(ls)),
    decreases ls.len(),
{
    if ls.len() > 0 {
        lemma_other_lines_skipped(ls.drop_last());
        let r = record_lines(ls.drop_last());
        if is_record_line(ls.last()) {
            assert(r.push(ls.last()).drop_last() =~= r);
        }
    }
}

/// Loading a credential file gives the store of its record lines alone.
pub proof fn lemma_load_skips_other_lines(content: Seq<char>)
    ensures
        store_of_text(content) == store_of_lines(record_lines(lines_of(content))),
{
    lemma_other_lines_skipped(lines_of(content));
}

} // verus!
