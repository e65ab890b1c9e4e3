//! Projects of users: what they consist of, how they are created, listed and updated.

use vstd::prelude::*;
use vstd::std_specs::convert::FromSpecImpl;

use crate::ids::{is_random_uuid, new_uuid, utc_now, Timestamp};
use crate::primitives::{BoundingBox2D, TimeInterval};

verus! {

/// The reasons for which an input about projects is rejected.
#[derive(Clone, Copy, Debug, PartialEq, Eq)]
pub enum ProjectError {
    ProjectCreateFailed,
    ProjectUpdateFailed,
    ProjectListFailed,
}

/// The identifier of a project, a UUID.
#[derive(Clone, Copy, Debug, PartialEq, Eq, Hash)]
pub struct ProjectId {
    pub id: u128,
}

impl ProjectId {
    /// A new, random identifier.
    #[allow(clippy::new_without_default)]
    pub fn new() -> (project: Self)
        ensures
            is_random_uuid(project.id),
    {
        ProjectId { id: new_uuid() }
    }
}

/// A region in space and time.
#[derive(Clone, Copy, Debug, PartialEq, Eq)]
pub struct STRectangle {
    pub bounding_box: BoundingBox2D,
    pub time_interval: TimeInterval,
}

impl STRectangle {
    /// Puts a bounding box and a time interval together, once both are known to be valid. The error
    /// of the bounding box comes first.
    pub fn new<E>(
        bounding_box: Result<BoundingBox2D, E>,
        time_interval: Result<TimeInterval, E>,
    ) -> (rectangle: Result<Self, E>)
        ensures
            rectangle == match (bounding_box, time_interval) {
                (Err(error), _) => Err::<Self, E>(error),
                (Ok(_), Err(error)) => Err(error),
                (Ok(bounding_box), Ok(time_interval)) => Ok(
                    STRectangle { bounding_box, time_interval },
                ),
            },
    {
        match (bounding_box, time_interval) {
            (Err(error), _) => Err(error),
            (Ok(_), Err(error)) => Err(error),
            (Ok(bounding_box), Ok(time_interval)) => Ok(
                STRectangle { bounding_box, time_interval },
            ),
        }
    }
}

/// A layer of a project with the workflow that computes it.
pub struct Layer<W> {
    pub workflow: W,
    pub name: String,
}

pub struct Project<W> {
    pub id: ProjectId,
    pub version: usize,
    pub changed: Timestamp,
    pub name: String,
    pub description: String,
    pub layers: Vec<Layer<W>>,
    pub view: STRectangle,
    pub bounds: STRectangle,
}

/// The order in which projects are listed.
#[derive(Clone, Copy, Debug, PartialEq, Eq, Hash)]
pub enum OrderBy {
    DateAsc,
    DateDesc,
    NameAsc,
    NameDesc,
}

/// A project as it is shown in a list.
pub struct ProjectListing {
    pub id: ProjectId,
    pub name: String,
    pub description: String,
    pub layer_name: Vec<String>,
    pub changed: Timestamp,
}

impl<W> FromSpecImpl<Project<W>> for ProjectListing {
    open spec fn obeys_from_spec() -> bool {
        false
    }

    open spec fn from_spec(project: Project<W>) -> Self {
        arbitrary()
    }
}

impl<W> From<Project<W>> for ProjectListing {
    /// The listing of a project: its names and the names of its layers, in their order.
    fn from(project: Project<W>) -> (listing: Self)
        ensures
            listing.id == project.id,
            listing.name@ == project.name@,
            listing.description@ == project.description@,
            listing.changed == project.changed,
            listing.layer_name@.len() == project.layers@.len(),
            forall|i: int|
                0 <= i < project.layers@.len() ==> (#[trigger] listing.layer_name@[i])@
                    == project.layers@[i].name@,
    {
        let mut layer_name: Vec<String> = Vec::new();
        let mut i: usize = 0;
        while i < project.layers.len()
            invariant
                i <= project.layers@.len(),
                layer_name@.len() == i,
                forall|j: int|
                    0 <= j < i ==> (#[trigger] layer_name@[j])@ == project.layers@[j].name@,
            decreases project.layers@.len() - i,
        {
            layer_name.push(project.layers[i].name.clone());
            i += 1;
        }
        ProjectListing {
            id: project.id,
            name: project.name,
            description: project.description,
            layer_name,
            changed: project.changed,
        }
    }
}

/// Which projects are listed.
#[derive(Debug, PartialEq, Eq, Hash)]
pub enum ProjectFilter {
    Name { term: String },
    Description { term: String },
    NoFilter,
}

/// The request to create a project.
pub struct CreateProject {
    pub name: String,
    pub description: String,
    pub view: STRectangle,
    pub bounds: STRectangle,
}

impl CreateProject {
    /// A project needs a name and a description.
    pub open spec fn is_valid(&self) -> bool {
        self.name@.len() > 0 && self.description@.len() > 0
    }

    pub fn validate(&self) -> (result: Result<(), ProjectError>)
        ensures
            result == if self.is_valid() {
                Ok(())
            } else {
                Err(ProjectError::ProjectCreateFailed)
            },
    {
        if self.name.as_str().is_empty() || self.description.as_str().is_empty() {
            return Err(ProjectError::ProjectCreateFailed);
        }
        Ok(())
    }
}

impl<W> Project<W> {
    /// The project is the first version of what was requested, and it has no layers yet.
    pub open spec fn is_new(&self, create: CreateProject) -> bool {
        &&& self.version == 0
        &&& self.name@ == create.name@
        &&& self.description@ == create.description@
        &&& self.layers@.len() == 0
        &&& self.view == create.view
        &&& self.bounds == create.bounds
    }

    /// The first version of a project with a given identifier and creation time.
    pub fn with_id(create: CreateProject, id: ProjectId, changed: Timestamp) -> (project: Self)
        ensures
            project.is_new(create),
            project.id == id,
            project.changed == changed,
    {
        Project {
            id,
            version: 0,
            changed,
            name: create.name,
            description: create.description,
            layers: Vec::new(),
            view: create.view,
            bounds: create.bounds,
        }
    }
}

impl<W> FromSpecImpl<CreateProject> for Project<W> {
    open spec fn obeys_from_spec() -> bool {
        false
    }

    open spec fn from_spec(create: CreateProject) -> Self {
        arbitrary()
    }
}

impl<W> From<CreateProject> for Project<W> {
    /// The first version of a project, with a random identifier and created now.
    fn from(create: CreateProject) -> (project: Self)
        ensures
            project.is_new(create),
            is_random_uuid(project.id.id),
            project.changed.seconds >= 0,
            project.changed.nanoseconds < 1_000_000_000,
    {
        Self::with_id(create, ProjectId::new(), utc_now())
    }
}

/// The request to update a project; what is `None` stays as it is.
pub struct UpdateProject<W> {
    pub id: ProjectId,
    pub name: Option<String>,
    pub description: Option<String>,
    pub layers: Option<Vec<Option<Layer<W>>>>,
    pub view: Option<STRectangle>,
    pub bounds: Option<STRectangle>,
}

impl<W> UpdateProject<W> {
    /// Neither the name nor the description can be removed.
    pub open spec fn is_valid(&self) -> bool {
        &&& self.name matches Some(name) ==> name@.len() > 0
        &&& self.description matches Some(description) ==> description@.len() > 0
    }

    pub fn validate(&self) -> (result: Result<(), ProjectError>)
        ensures
            result == if self.is_valid() {
                Ok(())
            } else {
                Err(ProjectError::ProjectUpdateFailed)
            },
    {
        if let Some(name) = &self.name {
            if name.as_str().is_empty() {
                return Err(ProjectError::ProjectUpdateFailed);
            }
        }
        if let Some(description) = &self.description {
            if description.as_str().is_empty() {
                return Err(ProjectError::ProjectUpdateFailed);
            }
        }
        Ok(())
    }

    /// The update of the project under whose address it was requested, whatever project it names
    /// itself.
    pub fn for_project(self, id: ProjectId) -> (update: Self)
        ensures
            update == (UpdateProject { id, ..self }),
    {
        UpdateProject { id, ..self }
    }
}

#[derive(Clone, Copy, Debug, PartialEq, Eq, Hash)]
pub enum ProjectPermission {
    Read,
    Write,
    Owner,
}

/// What a user may do with a project.
#[derive(Debug, PartialEq, Eq, Hash)]
pub struct UserProjectPermission<U> {
    pub user: U,
    pub project: ProjectId,
    pub permission: ProjectPermission,
}

/// The longest list of projects that can be requested.
pub const MAX_PROJECT_LIST_LIMIT: usize = 20;

#[derive(Debug, PartialEq, Eq, Hash)]
pub struct ProjectListOptions {
    pub only_owned: bool,
    pub filter: ProjectFilter,
    pub order: OrderBy,
    pub offset: usize,
    pub limit: usize,
}

impl ProjectListOptions {
    pub fn validate(&self) -> (result: Result<(), ProjectError>)
        ensures
            result == if self.limit <= MAX_PROJECT_LIST_LIMIT {
                Ok(())
            } else {
                Err(ProjectError::ProjectListFailed)
            },
    {
        if self.limit <= MAX_PROJECT_LIST_LIMIT {
            Ok(())
        } else {
            Err(ProjectError::ProjectListFailed)
        }
    }
}

/// A project can be created exactly if it has a name and a description, and it can be updated exactly
/// if neither of them is to become empty.
pub proof fn law_projects_need_names<W>(create: CreateProject, update: UpdateProject<W>)
    ensures
        create.is_valid() <==> create.name@ != Seq::<char>::empty() && create.description@
            != Seq::<char>::empty(),
        !update.is_valid() <==> (update.name is Some && update.name->0@ == Seq::<char>::empty()) || (
        update.description is Some && update.description->0@ == Seq::<char>::empty()),
        MAX_PROJECT_LIST_LIMIT == 20,
{
    assert(create.name@.len() == 0 ==> create.name@ =~= Seq::<char>::empty());
    assert(create.description@.len() == 0 ==> create.description@ =~= Seq::<char>::empty());
    if let Some(name) = update.name {
        assert(name@.len() == 0 ==> name@ =~= Seq::<char>::empty());
    }
    if let Some(description) = update.description {
        assert(description@.len() == 0 ==> description@ =~= Seq::<char>::empty());
    }
}

/// A new project is what was requested: it has the requested names and regions, no layers, and nobody
/// has changed it yet.
pub proof fn law_new_projects_are_what_was_requested<W>(project: Project<W>, create: CreateProject)
    requires
        project.is_new(create),
    ensures
        project.version == 0,
        project.name@ == create.name@,
        project.description@ == create.description@,
        project.layers@ == Seq::<Layer<W>>::empty(),
        project.view == create.view,
        project.bounds == create.bounds,
{
    assert(project.layers@ =~= Seq::<Layer<W>>::empty());
}

} // verus!
