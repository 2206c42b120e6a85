use vstd::prelude::*;

use crate::registry::opt_view;
use crate::session::{CurrentUser, UserView};
use crate::text::same_text;

verus! {

/// What a repeat sign-in does with the display name and email that the
/// provider sent: store them, or only hand them back.
#[derive(Clone, Copy, Debug, PartialEq, Eq, Structural)]
pub enum ProfilePolicy {
    Persist,
    ReturnOnly,
}

/// The local users, one per `(subject, provider)` pair.
pub struct UserDirectory {
    pub users: Vec<CurrentUser>,
    pub next_id: u64,
}

/// The values of a [`UserDirectory`].
pub ghost struct DirectoryView {
    pub users: Seq<UserView>,
    pub next_id: u64,
}

impl View for UserDirectory {
    type V = DirectoryView;

    open spec fn view(&self) -> DirectoryView {
        DirectoryView { users: self.users@.map_values(|u: CurrentUser| u@), next_id: self.next_id }
    }
}

/// `u` is the user of `subject` at `provider`.
pub open spec fn has_key(u: UserView, subject: Seq<char>, provider: Seq<char>) -> bool {
    u.subject_id == subject && u.provider == provider
}

/// Ids are below `next_id` and distinct, and no two users share a
/// `(subject, provider)` pair.
pub open spec fn directory_wf(d: DirectoryView) -> bool {
    &&& forall|i: int| 0 <= i < d.users.len() ==> #[trigger] d.users[i].user_id < d.next_id
    &&& forall|i: int, j: int|
        0 <= i < d.users.len() && 0 <= j < d.users.len() && i != j ==> (#[trigger] d.users[i]).user_id
            != (#[trigger] d.users[j]).user_id && !has_key(
            d.users[j],
            d.users[i].subject_id,
            d.users[i].provider,
        )
}

/// The position of the last user of `subject` at `provider`, if any.
pub open spec fn find_key(users: Seq<UserView>, subject: Seq<char>, provider: Seq<char>) -> Option<int>
    decreases users.len(),
{
    if users.len() == 0 {
        None
    } else if has_key(users.last(), subject, provider) {
        Some(users.len() - 1)
    } else {
        find_key(users.drop_last(), subject, provider)
    }
}

/// Find-or-create: the directory afterwards and the identity returned. A
/// known user keeps its id and gets the display name and email just given,
/// stored only under `Persist`; an unknown one gets the next id.
pub open spec fn reconciled(
    d: DirectoryView,
    subject: Seq<char>,
    provider: Seq<char>,
    name: Option<Seq<char>>,
    email: Option<Seq<char>>,
    policy: ProfilePolicy,
) -> (DirectoryView, UserView) {
    match find_key(d.users, subject, provider) {
        Some(i) => {
            let u = UserView {
                user_id: d.users[i].user_id,
                subject_id: subject,
                provider,
                display_name: name,
                email,
            };
            if policy == ProfilePolicy::Persist {
                (DirectoryView { users: d.users.update(i, u), next_id: d.next_id }, u)
            } else {
                (d, u)
            }
        },
        None => {
            let u = UserView {
                user_id: d.next_id,
                subject_id: subject,
                provider,
                display_name: name,
                email,
            };
            (DirectoryView { users: d.users.push(u), next_id: (d.next_id + 1) as u64 }, u)
        },
    }
}

proof fn lemma_find_key_at(users: Seq<UserView>, subject: Seq<char>, provider: Seq<char>, i: int)
    requires
        0 <= i < users.len(),
        has_key(users[i], subject, provider),
        forall|j: int| 0 <= j < users.len() && j != i ==> !has_key(#[trigger] users[j], subject, provider),
    ensures
        find_key(users, subject, provider) == Some(i),
    decreases users.len(),
{
    if i != users.len() - 1 {
        let init = users.drop_last();
        assert(!has_key(users[users.len() - 1], subject, provider));
        assert forall|j: int| 0 <= j < init.len() && j != i implies !has_key(#[trigger] init[j], subject, provider) by {
            assert(init[j] == users[j]);
        }
        lemma_find_key_at(init, subject, provider, i);
    }
}

proof fn lemma_find_key_none(users: Seq<UserView>, subject: Seq<char>, provider: Seq<char>)
    requires
        forall|j: int| 0 <= j < users.len() ==> !has_key(#[trigger] users[j], subject, provider),
    ensures
        find_key(users, subject, provider) is None,
    decreases users.len(),
{
    if users.len() > 0 {
        let init = users.drop_last();
        assert(!has_key(users[users.len() - 1], subject, provider));
        assert forall|j: int| 0 <= j < init.len() implies !has_key(#[trigger] init[j], subject, provider) by {
            assert(init[j] == users[j]);
        }
        lemma_find_key_none(init, subject, provider);
    }
}

/// In a well-formed directory, the user of a pair is the one at its found
/// position, and find-or-create keeps the directory well formed.
pub proof fn lemma_reconciled_wf(
    d: DirectoryView,
    subject: Seq<char>,
    provider: Seq<char>,
    name: Option<Seq<char>>,
    email: Option<Seq<char>>,
    policy: ProfilePolicy,
)
    requires
        directory_wf(d),
        d.next_id < u64::MAX,
    ensures
        directory_wf(reconciled(d, subject, provider, name, email, policy).0),
        find_key(reconciled(d, subject, provider, name, email, policy).0.users, subject, provider)
            is Some,
{
    let (d1, u) = reconciled(d, subject, provider, name, email, policy);
    match find_key(d.users, subject, provider) {
        Some(i) => {
            lemma_find_key_sound(d.users, subject, provider);
            assert forall|j: int| 0 <= j < d1.users.len() && j != i implies !has_key(
                #[trigger] d1.users[j],
                subject,
                provider,
            ) by {
                assert(d1.users[j] == d.users[j]);
                assert(d.users[i] != d.users[j] || i == j);
            }
            assert(has_key(d1.users[i], subject, provider));
            lemma_find_key_at(d1.users, subject, provider, i);
            assert forall|a: int, b: int|
                0 <= a < d1.users.len() && 0 <= b < d1.users.len() && a != b implies (#[trigger] d1.users[a]).user_id
                    != (#[trigger] d1.users[b]).user_id && !has_key(
                    d1.users[b],
                    d1.users[a].subject_id,
                    d1.users[a].provider,
                ) by {
                assert(d.users[a].user_id != d.users[b].user_id);
                assert(!has_key(d.users[b], d.users[a].subject_id, d.users[a].provider));
                assert(!has_key(d.users[a], d.users[b].subject_id, d.users[b].provider));
            }
        },
        None => {
            lemma_find_key_sound(d.users, subject, provider);
            let n = d.users.len() as int;
            assert(d1.users[n] == u);
            assert forall|j: int| 0 <= j < d1.users.len() && j != n implies !has_key(
                #[trigger] d1.users[j],
                subject,
                provider,
            ) by {
                assert(d1.users[j] == d.users[j]);
            }
            lemma_find_key_at(d1.users, subject, provider, n);
            assert forall|a: int, b: int|
                0 <= a < d1.users.len() && 0 <= b < d1.users.len() && a != b implies (#[trigger] d1.users[a]).user_id
                    != (#[trigger] d1.users[b]).user_id && !has_key(
                    d1.users[b],
                    d1.users[a].subject_id,
                    d1.users[a].provider,
                ) by {
                if a < n && b < n {
                    assert(d1.users[a] == d.users[a] && d1.users[b] == d.users[b]);
                } else if a < n {
                    assert(d1.users[a] == d.users[a]);
                    assert(d.users[a].user_id < d.next_id);
                } else {
                    assert(d1.users[b] == d.users[b]);
                    assert(d.users[b].user_id < d.next_id);
                }
            }
            assert forall|i: int| 0 <= i < d1.users.len() implies #[trigger] d1.users[i].user_id < d1.next_id by {
                if i < n {
                    assert(d1.users[i] == d.users[i]);
                }
            }
        },
    }
}

/// What `find_key` finds has the pair, and where it finds nothing no user has it.
pub proof fn lemma_find_key_sound(users: Seq<UserView>, subject: Seq<char>, provider: Seq<char>)
    ensures
        find_key(users, subject, provider) matches Some(i) ==> 0 <= i < users.len() && has_key(
            users[i],
            subject,
            provider,
        ),
        find_key(users, subject, provider) is None ==> forall|j: int|
            0 <= j < users.len() ==> !has_key(#[trigger] users[j], subject, provider),
    decreases users.len(),
{
    if users.len() > 0 && !has_key(users.last(), subject, provider) {
        let init = users.drop_last();
        lemma_find_key_sound(init, subject, provider);
        assert forall|j: int| 0 <= j < init.len() implies init[j] == users[j] by {}
    }
}

impl UserDirectory {
    /// A directory with no user, whose first id is 1.
    pub fn new() -> (r: UserDirectory)
        ensures
            r@.users.len() == 0,
            r@.next_id == 1,
            directory_wf(r@),
    {
        UserDirectory { users: Vec::new(), next_id: 1 }
    }

    /// Whether an id is left for a new user.
    pub fn has_room(&self) -> (r: bool)
        ensures
            r == (self.next_id < u64::MAX),
    {
        self.next_id < u64::MAX
    }

    fn position_of_key(&self, subject: &str, provider: &str) -> (r: Option<usize>)
        ensures
            r matches Some(i) ==> i < self@.users.len() && has_key(self@.users[i as int], subject@, provider@),
            r is None ==> forall|j: int| 0 <= j < self@.users.len() ==> !has_key(#[trigger] self@.users[j], subject@, provider@),
    {
        let mut j: usize = 0;
        while j < self.users.len()
            invariant
                j <= self.users@.len(),
                forall|k: int| 0 <= k < j ==> !has_key(#[trigger] self@.users[k], subject@, provider@),
            decreases self.users@.len() - j,
        {
            let u = &self.users[j];
            if same_text(u.subject_id.as_str(), subject) && same_text(u.provider.as_str(), provider) {
                return Some(j);
            }
            j = j + 1;
        }
        None
    }

    /// Find-or-create by the exact pair `(subject, provider)`: a known user
    /// keeps its id; an unknown one is stored under the next id. Either way
    /// the returned identity carries the display name and email just given.
    pub fn reconcile(
        &mut self,
        subject: String,
        provider: String,
        name: Option<String>,
        email: Option<String>,
        policy: ProfilePolicy,
    ) -> (r: CurrentUser)
        requires
            directory_wf(old(self)@),
            old(self).next_id < u64::MAX,
        ensures
            (final(self)@, r@) == reconciled(
                old(self)@,
                subject@,
                provider@,
                opt_view(name),
                opt_view(email),
                policy,
            ),
            directory_wf(final(self)@),
    {
        proof {
            lemma_reconciled_wf(self@, subject@, provider@, opt_view(name), opt_view(email), policy);
        }
        let ghost d = self@;
        match self.position_of_key(subject.as_str(), provider.as_str()) {
            Some(i) => {
                proof {
                    assert forall|j: int| 0 <= j < d.users.len() && j != i implies !has_key(
                        #[trigger] d.users[j],
                        subject@,
                        provider@,
                    ) by {
                        assert(!has_key(d.users[j], d.users[i as int].subject_id, d.users[i as int].provider));
                    }
                    lemma_find_key_at(d.users, subject@, provider@, i as int);
                }
                let user = CurrentUser {
                    user_id: self.users[i].user_id,
                    subject_id: subject,
                    provider,
                    display_name: name,
                    email,
                };
                if policy == ProfilePolicy::Persist {
                    let stored = user.duplicate();
                    self.users.set(i, stored);
                    assert(self@.users =~= d.users.update(i as int, user@));
                }
                user
            },
            None => {
                proof {
                    lemma_find_key_none(d.users, subject@, provider@);
                }
                let user = CurrentUser {
                    user_id: self.next_id,
                    subject_id: subject,
                    provider,
                    display_name: name,
                    email,
                };
                self.users.push(user.duplicate());
                self.next_id = self.next_id + 1;
                assert(self@.users =~= d.users.push(user@));
                user
            },
        }
    }
}

/// Two sign-ins with the same `(subject, provider)`, one after the other in
/// whatever order they are served, observe the same user id, and the
/// directory then holds exactly one user with that pair.
pub proof fn lemma_same_pair_one_user(
    d: DirectoryView,
    subject: Seq<char>,
    provider: Seq<char>,
    name1: Option<Seq<char>>,
    email1: Option<Seq<char>>,
    name2: Option<Seq<char>>,
    email2: Option<Seq<char>>,
    policy: ProfilePolicy,
)
    requires
        directory_wf(d),
        d.next_id < u64::MAX,
    ensures
        ({
            let (d1, u1) = reconciled(d, subject, provider, name1, email1, policy);
            let (d2, u2) = reconciled(d1, subject, provider, name2, email2, policy);
            &&& u1.user_id == u2.user_id
            &&& d2.users.len() == d1.users.len()
            &&& directory_wf(d2)
            &&& exists|i: int| 0 <= i < d2.users.len() && has_key(#[trigger] d2.users[i], subject, provider)
            &&& forall|i: int, j: int|
                0 <= i < d2.users.len() && 0 <= j < d2.users.len() && has_key(
                    #[trigger] d2.users[i],
                    subject,
                    provider,
                ) && has_key(#[trigger] d2.users[j], subject, provider) ==> i == j
        }),
{
    let (d1, u1) = reconciled(d, subject, provider, name1, email1, policy);
    lemma_reconciled_wf(d, subject, provider, name1, email1, policy);
    lemma_find_key_sound(d.users, subject, provider);
    lemma_find_key_sound(d1.users, subject, provider);
    let i1 = find_key(d1.users, subject, provider)->0;
    assert(u1.user_id == d1.users[i1].user_id) by {
        match find_key(d.users, subject, provider) {
            Some(i) => {
                if policy == ProfilePolicy::Persist {
                    assert(d1.users[i] == u1);
                } else {
                    assert(d1 == d);
                }
                assert(i == i1) by {
                    if i != i1 {
                        assert(has_key(d1.users[i], subject, provider));
                        assert(!has_key(d1.users[i1], d1.users[i].subject_id, d1.users[i].provider));
                    }
                }
            },
            None => {
                let n = d.users.len() as int;
                assert(d1.users[n] == u1);
                assert(i1 == n) by {
                    if i1 != n {
                        assert(d1.users[i1] == d.users[i1]);
                    }
                }
            },
        }
    }
    let (d2, u2) = reconciled(d1, subject, provider, name2, email2, policy);
    assert(d2.users.len() == d1.users.len());
    if d1.next_id < u64::MAX {
        lemma_reconciled_wf(d1, subject, provider, name2, email2, policy);
    } else {
        // A full directory still finds the existing pair and adds nothing.
        assert(directory_wf(d2)) by {
            if policy == ProfilePolicy::Persist {
                assert forall|a: int, b: int|
                    0 <= a < d2.users.len() && 0 <= b < d2.users.len() && a != b implies (#[trigger] d2.users[a]).user_id
                        != (#[trigger] d2.users[b]).user_id && !has_key(
                        d2.users[b],
                        d2.users[a].subject_id,
                        d2.users[a].provider,
                    ) by {
                    assert(d1.users[a].user_id != d1.users[b].user_id);
                    assert(!has_key(d1.users[b], d1.users[a].subject_id, d1.users[a].provider));
                    assert(!has_key(d1.users[a], d1.users[b].subject_id, d1.users[b].provider));
                }
                assert forall|i: int| 0 <= i < d2.users.len() implies #[trigger] d2.users[i].user_id < d2.next_id by {
                    assert(d1.users[i].user_id < d1.next_id);
                }
            }
        }
    }
    assert(d2.users[i1].user_id == d1.users[i1].user_id);
    assert(has_key(d2.users[i1], subject, provider));
    assert forall|i: int, j: int|
        0 <= i < d2.users.len() && 0 <= j < d2.users.len() && has_key(
            #[trigger] d2.users[i],
            subject,
            provider,
        ) && has_key(#[trigger] d2.users[j], subject, provider) implies i == j by {
        if i != j {
            assert(!has_key(d2.users[j], d2.users[i].subject_id, d2.users[i].provider));
        }
    }
}

} // verus!
