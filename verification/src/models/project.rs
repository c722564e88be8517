//! The record of a project.

use vstd::prelude::*;
use vstd::string::*;
use crate::text::text_of;
use crate::text::same_text;

verus! {

/// How far a project has come.
#[derive(Debug, Clone, Copy, PartialEq, Eq, Structural)]
pub enum ProjectStatus {
    InProgress,
    Completed,
    InitialStage,
    OnHold,
    Abandoned,
}

impl ProjectStatus {
    /// The name under which the status is stored.
    pub open spec fn label_text(self) -> Seq<char> {
        match self {
            ProjectStatus::InProgress => "InProgress"@,
            ProjectStatus::Completed => "Completed"@,
            ProjectStatus::InitialStage => "InitialStage"@,
            ProjectStatus::OnHold => "OnHold"@,
            ProjectStatus::Abandoned => "Abandoned"@,
        }
    }

    /// The status that a stored name stands for. An unknown name stands for a
    /// project in progress.
    pub open spec fn of_label(label: Seq<char>) -> ProjectStatus {
        if label == "Completed"@ {
            ProjectStatus::Completed
        } else if label == "InitialStage"@ {
            ProjectStatus::InitialStage
        } else if label == "OnHold"@ {
            ProjectStatus::OnHold
        } else if label == "Abandoned"@ {
            ProjectStatus::Abandoned
        } else {
            ProjectStatus::InProgress
        }
    }

    /// Writes the name under which the status is stored.
    pub fn label(&self) -> (r: String)
        ensures
            r@ == self.label_text(),
    {
        match self {
            ProjectStatus::InProgress => String::from_str("InProgress"),
            ProjectStatus::Completed => String::from_str("Completed"),
            ProjectStatus::InitialStage => String::from_str("InitialStage"),
            ProjectStatus::OnHold => String::from_str("OnHold"),
            ProjectStatus::Abandoned => String::from_str("Abandoned"),
        }
    }

    /// Reads a stored name.
    pub fn from_label(label: &str) -> (r: ProjectStatus)
        ensures
            r == ProjectStatus::of_label(label@),
    {
        if same_text(label, "Completed") {
            ProjectStatus::Completed
        } else if same_text(label, "InitialStage") {
            ProjectStatus::InitialStage
        } else if same_text(label, "OnHold") {
            ProjectStatus::OnHold
        } else if same_text(label, "Abandoned") {
            ProjectStatus::Abandoned
        } else {
            ProjectStatus::InProgress
        }
    }
}

/// A status that is stored and read back is the same status.
pub proof fn lemma_status_label_round_trip(status: ProjectStatus)
    ensures
        ProjectStatus::of_label(status.label_text()) == status,
{
    reveal_strlit("InProgress");
    reveal_strlit("Completed");
    reveal_strlit("InitialStage");
    reveal_strlit("OnHold");
    reveal_strlit("Abandoned");
    assert("Completed"@[0] == 'C');
    assert("Abandoned"@[0] == 'A');
    assert("InProgress"@.len() == 10);
    assert("InitialStage"@.len() == 12);
    assert("OnHold"@.len() == 6);
}

/// Calls `uuid::Uuid::new_v4` and writes the identifier out through its
/// `Display`, which is the hyphenated form: 32 hexadecimal digits in five
/// groups, 36 characters. Which identifier comes is up to the random source
/// of the system, and the call fails where the system has none.
#[verifier::external_body]
fn fresh_id() -> (r: String)
    ensures
        r@.len() == 36,
{
    uuid::Uuid::new_v4().to_string()
}

/// Calls `chrono::Utc::now` and writes the time with `DateTime::to_rfc3339`.
/// Nothing is claimed of the text: it is the reading of the clock, and the
/// call fails where the clock stands before 1970.
#[verifier::external_body]
fn now_rfc3339() -> (r: String) {
    chrono::Utc::now().to_rfc3339()
}

/// A project that the tool knows.
///
/// `db_config` holds the credentials saved for the project, serialised.
#[derive(Debug, Clone)]
pub struct Project {
    pub id: String,
    pub name: String,
    pub description: String,
    pub location: String,
    pub status: ProjectStatus,
    pub created_at: String,
    pub updated_at: String,
    pub db_config: Option<String>,
}

/// The mathematical value of a [`Project`].
pub ghost struct ProjectView {
    pub id: Seq<char>,
    pub name: Seq<char>,
    pub description: Seq<char>,
    pub location: Seq<char>,
    pub status: ProjectStatus,
    pub created_at: Seq<char>,
    pub updated_at: Seq<char>,
    pub db_config: Option<Seq<char>>,
}

impl View for Project {
    type V = ProjectView;

    open spec fn view(&self) -> ProjectView {
        ProjectView {
            id: self.id@,
            name: self.name@,
            description: self.description@,
            location: self.location@,
            status: self.status,
            created_at: self.created_at@,
            updated_at: self.updated_at@,
            db_config: text_of(self.db_config),
        }
    }
}

/// The given text, or the text that was there.
pub open spec fn given_or(given: Option<Seq<char>>, kept: Seq<char>) -> Seq<char> {
    match given {
        Some(g) => g,
        None => kept,
    }
}

impl ProjectView {
    /// A project under the identifier `id`, made at the time `now`, with no
    /// saved credentials.
    pub open spec fn made(
        name: Seq<char>,
        description: Seq<char>,
        location: Seq<char>,
        status: ProjectStatus,
        id: Seq<char>,
        now: Seq<char>,
    ) -> ProjectView {
        ProjectView {
            id,
            name,
            description,
            location,
            status,
            created_at: now,
            updated_at: now,
            db_config: None,
        }
    }

    /// The project with the given parts taken over and the change stamped
    /// with `now`. Identifier, creation time and saved credentials stay.
    pub open spec fn updated(
        self,
        name: Option<Seq<char>>,
        description: Option<Seq<char>>,
        location: Option<Seq<char>>,
        status: Option<ProjectStatus>,
        now: Seq<char>,
    ) -> ProjectView {
        ProjectView {
            id: self.id,
            name: given_or(name, self.name),
            description: given_or(description, self.description),
            location: given_or(location, self.location),
            status: match status {
                Some(s) => s,
                None => self.status,
            },
            created_at: self.created_at,
            updated_at: now,
            db_config: self.db_config,
        }
    }
}

impl Project {
    /// A new project under a fresh identifier, made now.
    ///
    /// The identifier is a random one of 36 characters; the two time stamps
    /// are the same reading of the clock.
    pub fn new(name: String, description: String, location: String, status: ProjectStatus) -> (r:
        Project)
        ensures
            r@ == ProjectView::made(
                name@,
                description@,
                location@,
                status,
                r@.id,
                r@.created_at,
            ),
            r@.id.len() == 36,
    {
        let id = fresh_id();
        let now = now_rfc3339();
        Project::with_identity(name, description, location, status, id, now)
    }

    /// A new project under the identifier `id`, made at the time `now`.
    pub fn with_identity(
        name: String,
        description: String,
        location: String,
        status: ProjectStatus,
        id: String,
        now: String,
    ) -> (r: Project)
        ensures
            r@ == ProjectView::made(name@, description@, location@, status, id@, now@),
    {
        let created_at = now.clone();
        Project {
            id,
            name,
            description,
            location,
            status,
            created_at,
            updated_at: now,
            db_config: None,
        }
    }

    /// Takes over the parts that are given and stamps the change with the
    /// time of the clock. Identifier, creation time and saved credentials
    /// stay.
    pub fn update(
        &mut self,
        name: Option<String>,
        description: Option<String>,
        location: Option<String>,
        status: Option<ProjectStatus>,
    )
        ensures
            final(self)@ == old(self)@.updated(
                text_of(name),
                text_of(description),
                text_of(location),
                status,
                final(self)@.updated_at,
            ),
    {
        let now = now_rfc3339();
        self.update_at(name, description, location, status, now);
    }

    /// Takes over the parts that are given and stamps the change with `now`.
    /// Identifier, creation time and saved credentials stay.
    pub fn update_at(
        &mut self,
        name: Option<String>,
        description: Option<String>,
        location: Option<String>,
        status: Option<ProjectStatus>,
        now: String,
    )
        ensures
            final(self)@ == old(self)@.updated(
                text_of(name),
                text_of(description),
                text_of(location),
                status,
                now@,
            ),
    {
        if let Some(n) = name {
            self.name = n;
        }
        if let Some(d) = description {
            self.description = d;
        }
        if let Some(l) = location {
            self.location = l;
        }
        if let Some(s) = status {
            self.status = s;
        }
        self.updated_at = now;
    }
}

} // verus!
