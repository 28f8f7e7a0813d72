use cleverclown::domain::model::{Application, ApplicationConfig, ApplicationSource, Container};
use cleverclown::domain::plan::{plan_deploy, sort_oldest_first, Action};

fn instance(id: &str, started_at: u64, image_id: &str) -> Container {
    Container { id: id.to_string(), started_at, image_id: image_id.to_string() }
}

fn app(replicas: Option<u8>) -> Application {
    Application {
        name: "web".to_string(),
        source: ApplicationSource::DockerImage { image: "nginx".to_string(), pull: true },
        configuration: Some(ApplicationConfig { domain: None, exposed_port: None, replicas }),
    }
}

fn plan(replicas: Option<u8>, containers: Vec<Container>) -> Vec<Action> {
    plan_deploy(&app(replicas), &"new".to_string(), containers)
}

fn starts(plan: &[Action]) -> usize {
    plan.iter().filter(|action| **action == Action::Start).count()
}

fn stops(plan: &[Action]) -> Vec<String> {
    plan.iter()
        .filter_map(|action| match action {
            Action::Stop(container) => Some(container.id.clone()),
            Action::Start => None,
        })
        .collect()
}

#[test]
fn nothing_is_planned_at_target() {
    let found = vec![instance("a", 1, "new"), instance("b", 2, "new")];
    assert_eq!(plan(Some(2), found), Vec::<Action>::new());
}

#[test]
fn nothing_is_planned_at_target_with_outdated_instances() {
    let found = vec![instance("a", 1, "new"), instance("x", 2, "old"), instance("y", 3, "older")];
    assert_eq!(plan(Some(1), found), Vec::<Action>::new());
}

#[test]
fn one_instance_is_wanted_without_configuration() {
    let bare = Application {
        name: "web".to_string(),
        source: ApplicationSource::LocalRepo { path: "/src".to_string(), dockerfile: None },
        configuration: None,
    };
    assert_eq!(bare.replicas(), 1);
    assert_eq!(plan_deploy(&bare, &"new".to_string(), Vec::new()), vec![Action::Start]);
    assert_eq!(app(None).replicas(), 1);
    assert_eq!(plan(None, Vec::new()), vec![Action::Start]);
}

#[test]
fn zero_replicas_stops_every_current_instance() {
    let found = vec![instance("b", 2, "new"), instance("x", 0, "old"), instance("a", 1, "new")];
    assert_eq!(stops(&plan(Some(0), found)), vec!["a", "b"]);
}

#[test]
fn scale_up_pairs_each_stop_with_a_start() {
    let found = vec![
        instance("x", 5, "old"),
        instance("a", 1, "new"),
        instance("y", 6, "older"),
    ];
    let planned = plan(Some(4), found.clone());
    assert_eq!(
        planned,
        vec![
            Action::Start,
            Action::Stop(found[0].clone()),
            Action::Start,
            Action::Stop(found[2].clone()),
            Action::Start,
        ]
    );
    assert_eq!(starts(&planned), 3);
}

#[test]
fn scale_up_drains_outdated_instances_left_over() {
    let found = vec![
        instance("x", 5, "old"),
        instance("y", 6, "old"),
        instance("z", 7, "old"),
        instance("a", 1, "new"),
    ];
    let planned = plan(Some(2), found.clone());
    assert_eq!(
        planned,
        vec![
            Action::Start,
            Action::Stop(found[0].clone()),
            Action::Stop(found[1].clone()),
            Action::Stop(found[2].clone()),
        ]
    );
}

#[test]
fn scale_up_counts_follow_the_formula() {
    for outdated in 0..5usize {
        for current in 0..4usize {
            for target in (current + 1)..7 {
                let mut found = Vec::new();
                for i in 0..outdated {
                    found.push(instance(&format!("old-{}", i), i as u64, "old"));
                }
                for i in 0..current {
                    found.push(instance(&format!("new-{}", i), i as u64, "new"));
                }
                let planned = plan(Some(target as u8), found);
                let missing = target - current;
                assert_eq!(starts(&planned), missing);
                let expected = outdated.min(missing) + outdated.saturating_sub(missing);
                assert_eq!(stops(&planned).len(), expected);
                let mut started = 0;
                let mut stopped = 0;
                for action in &planned {
                    match action {
                        Action::Start => started += 1,
                        Action::Stop(_) => stopped += 1,
                    }
                    assert!(stopped <= started || started == missing);
                }
            }
        }
    }
}

#[test]
fn scale_down_stops_the_oldest_and_spares_outdated_instances() {
    let found = vec![
        instance("c", 30, "new"),
        instance("x", 1, "old"),
        instance("a", 10, "new"),
        instance("b", 20, "new"),
    ];
    assert_eq!(stops(&plan(Some(1), found)), vec!["a", "b"]);
}

#[test]
fn scale_down_keeps_the_order_of_equally_old_instances() {
    let found = vec![
        instance("first", 7, "new"),
        instance("second", 7, "new"),
        instance("third", 7, "new"),
    ];
    assert_eq!(stops(&plan(Some(1), found)), vec!["first", "second"]);
}

#[test]
fn sorting_by_age_is_stable() {
    let found = vec![
        instance("d", 9, "i"),
        instance("a", 3, "i"),
        instance("b", 3, "i"),
        instance("e", 0, "i"),
        instance("c", 3, "i"),
    ];
    let sorted: Vec<String> =
        sort_oldest_first(&found).into_iter().map(|container| container.id).collect();
    assert_eq!(sorted, vec!["e", "a", "b", "c", "d"]);
    assert_eq!(sort_oldest_first(&Vec::new()), Vec::<Container>::new());
}

#[test]
fn an_instance_is_outdated_when_its_image_differs_at_all() {
    let running = instance("a", 1, "sha256:abc");
    assert!(running.runs_image(&"sha256:abc".to_string()));
    assert!(!running.runs_image(&"sha256:ab".to_string()));
    assert!(!running.runs_image(&"".to_string()));
}
