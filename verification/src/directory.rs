//! A snapshot of what the engine reads from the user directory and the
//! project membership store: which users exist, what projects are called and
//! who their members are.

use vstd::prelude::*;
use crate::models::projects::{Project, ProjectMember};
use crate::models::users::UserSummary;
use crate::text::texts_view;

verus! {

/// What is shown of a user, as plain values.
pub struct UserSummaryView {
    pub id: Seq<char>,
    pub first_name: Seq<char>,
    pub last_name: Seq<char>,
}

/// A user as the directory knows them: what is shown of the user wherever a
/// user is named, and the address that is shown with an assignment.
#[derive(Debug)]
pub struct DirectoryUser {
    pub summary: UserSummary,
    pub email: String,
}

/// What the snapshot holds, as plain values: the users and, place for place,
/// their addresses; the projects as pairs of identifier and name; and the
/// memberships as pairs of project and user.
pub struct DirectoryView {
    pub users: Seq<UserSummaryView>,
    pub emails: Seq<Seq<char>>,
    pub projects: Seq<(Seq<char>, Seq<char>)>,
    pub members: Seq<(Seq<char>, Seq<char>)>,
}

/// The view of a user summary.
pub open spec fn summary_view(u: UserSummary) -> UserSummaryView {
    UserSummaryView { id: u.id@, first_name: u.first_name@, last_name: u.last_name@ }
}

/// The views of a list of user summaries, in order.
pub open spec fn summary_views(users: Seq<UserSummary>) -> Seq<UserSummaryView> {
    Seq::new(users.len(), |i: int| summary_view(users[i]))
}

/// What is shown of each user of a list, in order.
pub open spec fn directory_summaries(users: Seq<DirectoryUser>) -> Seq<UserSummaryView> {
    Seq::new(users.len(), |i: int| summary_view(users[i].summary))
}

/// The address of each user of a list, in order.
pub open spec fn directory_emails(users: Seq<DirectoryUser>) -> Seq<Seq<char>> {
    Seq::new(users.len(), |i: int| users[i].email@)
}

/// The address of the first user with identifier `id`; no text where there
/// is no such user.
pub open spec fn email_named(users: Seq<UserSummaryView>, emails: Seq<Seq<char>>, id: Seq<char>) -> Seq<
    char,
>
    decreases users.len(),
{
    if users.len() == 0 || emails.len() == 0 {
        Seq::empty()
    } else if users[0].id == id {
        emails[0]
    } else {
        email_named(users.drop_first(), emails.drop_first(), id)
    }
}

/// Identifier and name of each project, in order.
pub open spec fn project_pairs(projects: Seq<Project>) -> Seq<(Seq<char>, Seq<char>)> {
    Seq::new(projects.len(), |i: int| (projects[i].id@, projects[i].name@))
}

/// Project and user of each membership, in order.
pub open spec fn member_pairs(members: Seq<ProjectMember>) -> Seq<(Seq<char>, Seq<char>)> {
    Seq::new(members.len(), |i: int| (members[i].project_id@, members[i].user_id@))
}

/// Whether a user with identifier `id` exists.
pub open spec fn user_known(users: Seq<UserSummaryView>, id: Seq<char>) -> bool {
    exists|i: int| 0 <= i < users.len() && (#[trigger] users[i]).id == id
}

/// The first user with identifier `id`, if there is one.
pub open spec fn user_named(users: Seq<UserSummaryView>, id: Seq<char>) -> Option<UserSummaryView>
    decreases users.len(),
{
    if users.len() == 0 {
        None
    } else if users[0].id == id {
        Some(users[0])
    } else {
        user_named(users.drop_first(), id)
    }
}

/// What is shown of those of `ids` that are users of the directory, in the
/// order of `ids`.
pub open spec fn known_users(ids: Seq<Seq<char>>, users: Seq<UserSummaryView>) -> Seq<
    UserSummaryView,
>
    decreases ids.len(),
{
    if ids.len() == 0 {
        Seq::empty()
    } else {
        match user_named(users, ids.last()) {
            Some(u) => known_users(ids.drop_last(), users).push(u),
            None => known_users(ids.drop_last(), users),
        }
    }
}

/// The name of the first project with identifier `id`, if there is one.
pub open spec fn project_name_of(projects: Seq<(Seq<char>, Seq<char>)>, id: Seq<char>) -> Option<
    Seq<char>,
>
    decreases projects.len(),
{
    if projects.len() == 0 {
        None
    } else if projects[0].0 == id {
        Some(projects[0].1)
    } else {
        project_name_of(projects.drop_first(), id)
    }
}

/// Whether `user` is a member of `project`.
pub open spec fn is_member(members: Seq<(Seq<char>, Seq<char>)>, project: Seq<char>, user: Seq<char>) -> bool {
    exists|i: int| 0 <= i < members.len() && #[trigger] members[i] == (project, user)
}

/// The members of `project`, in the order of the memberships.
pub open spec fn members_of(members: Seq<(Seq<char>, Seq<char>)>, project: Seq<char>) -> Seq<
    Seq<char>,
>
    decreases members.len(),
{
    if members.len() == 0 {
        Seq::empty()
    } else if members.last().0 == project {
        members_of(members.drop_last(), project).push(members.last().1)
    } else {
        members_of(members.drop_last(), project)
    }
}

/// The list of a project's members holds exactly its members.
pub proof fn members_of_holds_members(
    members: Seq<(Seq<char>, Seq<char>)>,
    project: Seq<char>,
    user: Seq<char>,
)
    ensures
        members_of(members, project).contains(user) <==> is_member(members, project, user),
    decreases members.len(),
{
    if members.len() == 0 {
    } else {
        let head = members.drop_last();
        let last = members.last();
        members_of_holds_members(head, project, user);
        let listed = members_of(members, project);
        let listed_head = members_of(head, project);
        if is_member(members, project, user) {
            let i = choose|i: int| 0 <= i < members.len() && #[trigger] members[i] == (project, user);
            if i < head.len() {
                assert(head[i] == (project, user));
                let k = choose|k: int| 0 <= k < listed_head.len() && listed_head[k] == user;
                assert(listed[k] == user);
            } else {
                assert(listed.last() == user);
            }
        }
        if listed.contains(user) {
            let k = choose|k: int| 0 <= k < listed.len() && listed[k] == user;
            if last.0 == project && k == listed.len() - 1 {
                assert(members[members.len() - 1] == (project, user));
            } else {
                assert(listed_head[k] == user);
                let i = choose|i: int| 0 <= i < head.len() && #[trigger] head[i] == (project, user);
                assert(members[i] == (project, user));
            }
        }
    }
}

/// The snapshot that the engine reads.
pub struct Directory {
    users: Vec<DirectoryUser>,
    projects: Vec<Project>,
    members: Vec<ProjectMember>,
}

impl View for Directory {
    type V = DirectoryView;

    closed spec fn view(&self) -> DirectoryView {
        DirectoryView {
            users: directory_summaries(self.users@),
            emails: directory_emails(self.users@),
            projects: project_pairs(self.projects@),
            members: member_pairs(self.members@),
        }
    }
}

impl Directory {
    /// A snapshot of the users, projects and memberships given.
    pub fn new(users: Vec<DirectoryUser>, projects: Vec<Project>, members: Vec<ProjectMember>) -> (d:
        Directory)
        ensures
            d@.users == directory_summaries(users@),
            d@.emails == directory_emails(users@),
            d@.projects == project_pairs(projects@),
            d@.members == member_pairs(members@),
    {
        Directory { users, projects, members }
    }

    /// A snapshot without users, projects or memberships.
    pub fn empty() -> (d: Directory)
        ensures
            d@.users.len() == 0,
            d@.emails.len() == 0,
            d@.projects.len() == 0,
            d@.members.len() == 0,
    {
        Directory { users: Vec::new(), projects: Vec::new(), members: Vec::new() }
    }

    /// Whether a user with identifier `id` exists.
    pub fn user_exists(&self, id: &String) -> (known: bool)
        ensures
            known == user_known(self@.users, id@),
    {
        let mut i: usize = 0;
        while i < self.users.len()
            invariant
                i <= self.users.len(),
                forall|k: int| 0 <= k < i ==> (#[trigger] self@.users[k]).id != id@,
            decreases self.users.len() - i,
        {
            if self.users[i].summary.id == *id {
                assert(self@.users[i as int].id == id@);
                return true;
            }
            i += 1;
        }
        false
    }

    /// What is shown of the first user with identifier `id`, if there is one.
    pub fn user_summary(&self, id: &String) -> (r: Option<UserSummary>)
        ensures
            r.is_some() == user_named(self@.users, id@).is_some(),
            r matches Some(u) ==> Some(summary_view(u)) == user_named(self@.users, id@),
    {
        let mut i: usize = 0;
        assert(self@.users.skip(0) =~= self@.users);
        while i < self.users.len()
            invariant
                i <= self.users.len(),
                user_named(self@.users, id@) == user_named(self@.users.skip(i as int), id@),
            decreases self.users.len() - i,
        {
            proof {
                assert(self@.users.skip(i as int).drop_first() =~= self@.users.skip(i as int + 1));
                assert(self@.users.skip(i as int)[0] == self@.users[i as int]);
            }
            if self.users[i].summary.id == *id {
                return Some(
                    UserSummary {
                        id: self.users[i].summary.id.clone(),
                        first_name: self.users[i].summary.first_name.clone(),
                        last_name: self.users[i].summary.last_name.clone(),
                    },
                );
            }
            i += 1;
        }
        None
    }

    /// The address of the first user with identifier `id`; an empty text
    /// where there is no such user.
    pub fn user_email(&self, id: &String) -> (email: String)
        ensures
            email@ == email_named(self@.users, self@.emails, id@),
    {
        let mut i: usize = 0;
        assert(self@.users.skip(0) =~= self@.users);
        assert(self@.emails.skip(0) =~= self@.emails);
        while i < self.users.len()
            invariant
                i <= self.users.len(),
                self@.users.len() == self.users.len(),
                self@.emails.len() == self.users.len(),
                email_named(self@.users, self@.emails, id@) == email_named(
                    self@.users.skip(i as int),
                    self@.emails.skip(i as int),
                    id@,
                ),
            decreases self.users.len() - i,
        {
            proof {
                assert(self@.users.skip(i as int).drop_first() =~= self@.users.skip(i as int + 1));
                assert(self@.emails.skip(i as int).drop_first() =~= self@.emails.skip(
                    i as int + 1,
                ));
                assert(self@.users.skip(i as int)[0] == self@.users[i as int]);
                assert(self@.emails.skip(i as int)[0] == self@.emails[i as int]);
            }
            if self.users[i].summary.id == *id {
                return self.users[i].email.clone();
            }
            i += 1;
        }
        String::new()
    }

    /// What is shown of those of `ids` that are users of the directory, in
    /// the order of `ids`.
    pub fn summaries_of(&self, ids: &Vec<String>) -> (found: Vec<UserSummary>)
        ensures
            summary_views(found@) == known_users(texts_view(ids@), self@.users),
    {
        let ghost all = texts_view(ids@);
        let mut found: Vec<UserSummary> = Vec::new();
        let mut i: usize = 0;
        while i < ids.len()
            invariant
                i <= ids.len(),
                all == texts_view(ids@),
                summary_views(found@) == known_users(all.take(i as int), self@.users),
            decreases ids.len() - i,
        {
            proof {
                assert(all.take(i as int + 1).drop_last() =~= all.take(i as int));
                assert(all.take(i as int + 1).last() == ids[i as int]@);
            }
            match self.user_summary(&ids[i]) {
                Some(u) => {
                    let ghost found_before = summary_views(found@);
                    let ghost shown = summary_view(u);
                    found.push(u);
                    assert(summary_views(found@) =~= found_before.push(shown));
                },
                None => {},
            }
            i += 1;
        }
        assert(all.take(ids.len() as int) =~= all);
        found
    }

    /// The name of the first project with identifier `id`, if there is one.
    pub fn project_name(&self, id: &String) -> (r: Option<String>)
        ensures
            crate::text::opt_view(r) == project_name_of(self@.projects, id@),
    {
        let mut i: usize = 0;
        assert(self@.projects.skip(0) =~= self@.projects);
        while i < self.projects.len()
            invariant
                i <= self.projects.len(),
                project_name_of(self@.projects, id@) == project_name_of(
                    self@.projects.skip(i as int),
                    id@,
                ),
            decreases self.projects.len() - i,
        {
            proof {
                assert(self@.projects.skip(i as int).drop_first() =~= self@.projects.skip(
                    i as int + 1,
                ));
                assert(self@.projects.skip(i as int)[0] == self@.projects[i as int]);
            }
            if self.projects[i].id == *id {
                return Some(self.projects[i].name.clone());
            }
            i += 1;
        }
        None
    }

    /// Whether `user_id` is a member of `project_id`.
    pub fn is_member(&self, project_id: &String, user_id: &String) -> (member: bool)
        ensures
            member == is_member(self@.members, project_id@, user_id@),
    {
        let mut i: usize = 0;
        while i < self.members.len()
            invariant
                i <= self.members.len(),
                forall|k: int| 0 <= k < i ==> #[trigger] self@.members[k] != (project_id@, user_id@),
            decreases self.members.len() - i,
        {
            if self.members[i].project_id == *project_id && self.members[i].user_id == *user_id {
                assert(self@.members[i as int] == (project_id@, user_id@));
                return true;
            }
            i += 1;
        }
        false
    }

    /// The members of `project_id`, in the order of the memberships. A
    /// project that the snapshot does not know has none.
    pub fn members_of(&self, project_id: &String) -> (users: Vec<String>)
        ensures
            texts_view(users@) == members_of(self@.members, project_id@),
    {
        let mut users: Vec<String> = Vec::new();
        let mut i: usize = 0;
        while i < self.members.len()
            invariant
                i <= self.members.len(),
                texts_view(users@) == members_of(self@.members.take(i as int), project_id@),
            decreases self.members.len() - i,
        {
            proof {
                assert(self@.members.take(i as int + 1).drop_last() =~= self@.members.take(i as int));
                assert(self@.members.take(i as int + 1).last() == self@.members[i as int]);
            }
            if self.members[i].project_id == *project_id {
                let ghost users_before = texts_view(users@);
                users.push(self.members[i].user_id.clone());
                assert(texts_view(users@) =~= users_before.push(self@.members[i as int].1));
            }
            i += 1;
        }
        assert(self@.members.take(self.members.len() as int) =~= self@.members);
        users
    }
}

} // verus!
