use geoengine::ids::Timestamp;
use geoengine::primitives::{BoundingBox2D, Coordinate2D, F64Bits, TimeInterval};
use geoengine::projects::{
    CreateProject, Layer, OrderBy, Project, ProjectError, ProjectFilter, ProjectId,
    ProjectListOptions, ProjectListing, ProjectPermission, STRectangle, UpdateProject,
    UserProjectPermission,
};

fn number(value: f64) -> F64Bits {
    F64Bits {
        bits: value.to_bits(),
    }
}

fn rectangle(size: f64, end: i64) -> STRectangle {
    let corner = |value: f64| Coordinate2D {
        x: number(value),
        y: number(value),
    };
    STRectangle {
        bounding_box: BoundingBox2D {
            lower_left_coordinate: corner(0.),
            upper_right_coordinate: corner(size),
        },
        time_interval: TimeInterval { start: 0, end },
    }
}

fn create(name: &str, description: &str) -> CreateProject {
    CreateProject {
        name: name.to_string(),
        description: description.to_string(),
        view: rectangle(1., 1),
        bounds: rectangle(2., 2),
    }
}

fn update(name: Option<&str>, description: Option<&str>) -> UpdateProject<()> {
    UpdateProject {
        id: ProjectId { id: 1 },
        name: name.map(str::to_string),
        description: description.map(str::to_string),
        layers: None,
        view: None,
        bounds: None,
    }
}

#[test]
fn it_limits_project_lists() {
    let options = |limit: usize| ProjectListOptions {
        only_owned: false,
        filter: ProjectFilter::NoFilter,
        order: OrderBy::NameAsc,
        offset: 0,
        limit,
    };
    assert_eq!(options(20).validate(), Ok(()));
    assert_eq!(options(21).validate(), Err(ProjectError::ProjectListFailed));
}

#[test]
fn a_new_project_needs_a_name_and_a_description() {
    assert_eq!(create("Test", "Foo").validate(), Ok(()));
    for create in [create("", "Foo"), create("Test", ""), create("", "")] {
        assert_eq!(create.validate(), Err(ProjectError::ProjectCreateFailed));
    }
}

#[test]
fn names_cannot_be_removed_by_an_update() {
    assert_eq!(update(None, None).validate(), Ok(()));
    assert_eq!(update(Some("Test"), Some("Foo")).validate(), Ok(()));
    for update in [update(Some(""), None), update(None, Some(""))] {
        assert_eq!(update.validate(), Err(ProjectError::ProjectUpdateFailed));
    }
}

#[test]
fn an_update_is_for_the_project_under_whose_address_it_was_requested() {
    let update = update(Some("TestUpdate"), None).for_project(ProjectId { id: 7 });
    assert_eq!(update.id, ProjectId { id: 7 });
    assert_eq!(update.name.as_deref(), Some("TestUpdate"));
    assert!(update.layers.is_none());
}

#[test]
fn projects_are_created() {
    let before = chrono::Utc::now().timestamp();
    let project: Project<()> = Project::from(create("Test", "Foo"));
    let after = chrono::Utc::now().timestamp();
    assert_eq!(project.version, 0);
    assert_eq!(project.name, "Test");
    assert_eq!(project.description, "Foo");
    assert!(project.layers.is_empty());
    assert_eq!(project.view, rectangle(1., 1));
    assert_eq!(project.bounds, rectangle(2., 2));
    assert!(before <= project.changed.seconds && project.changed.seconds <= after);
    assert!(project.changed.nanoseconds < 1_000_000_000);
    assert_eq!(uuid::Uuid::from_u128(project.id.id).get_version_num(), 4);

    let other: Project<()> = Project::from(create("Test", "Foo"));
    assert_ne!(project.id, other.id);
}

#[test]
fn projects_are_listed_with_the_names_of_their_layers() {
    let changed = Timestamp {
        seconds: 1_619_445_831,
        nanoseconds: 984_537_900,
    };
    let mut project = Project::with_id(create("Test", "Foo"), ProjectId { id: 3 }, changed);
    project.layers = ["L1", "L2"]
        .iter()
        .map(|name| Layer {
            workflow: (),
            name: name.to_string(),
        })
        .collect();
    let listing = ProjectListing::from(project);
    assert_eq!(listing.id, ProjectId { id: 3 });
    assert_eq!(listing.name, "Test");
    assert_eq!(listing.description, "Foo");
    assert_eq!(listing.layer_name, vec!["L1", "L2"]);
    assert_eq!(listing.changed, changed);
}

#[test]
fn a_rectangle_needs_a_valid_box_and_a_valid_interval() {
    let valid = rectangle(1., 1);
    assert_eq!(
        STRectangle::new::<&str>(Ok(valid.bounding_box), Ok(valid.time_interval)),
        Ok(valid)
    );
    assert_eq!(
        STRectangle::new(Err("box"), Err("interval")),
        Err("box")
    );
    assert_eq!(
        STRectangle::new(Ok(valid.bounding_box), Err("interval")),
        Err("interval")
    );
}

#[test]
fn permissions_belong_to_a_user_and_a_project() {
    let permission = UserProjectPermission {
        user: "user",
        project: ProjectId { id: 1 },
        permission: ProjectPermission::Owner,
    };
    assert_eq!(permission.permission, ProjectPermission::Owner);
    assert_ne!(permission.permission, ProjectPermission::Read);
}
