use hyperlane_cli::{Package, PublishError, find_package, names_are_distinct, publish_order, topological_sort};

fn package(name: &str, deps: &[&str]) -> Package {
    Package {
        name: name.to_string(),
        version: "0.1.0".to_string(),
        path: format!("crates/{name}"),
        local_dependencies: deps.iter().map(|d| d.to_string()).collect(),
    }
}

fn names(order: &[Package]) -> Vec<String> {
    order.iter().map(|p| p.name.clone()).collect()
}

fn position(order: &[Package], name: &str) -> usize {
    order.iter().position(|p| p.name == name).expect("package is in the order")
}

#[test]
fn chain_is_published_from_its_root() {
    let packages = vec![package("A", &[]), package("B", &["A"]), package("C", &["B"])];
    let order = topological_sort(&packages).unwrap();
    assert_eq!(names(&order), vec!["A", "B", "C"]);
}

#[test]
fn chain_given_backwards_is_turned_round() {
    let packages = vec![package("C", &["B"]), package("B", &["A"]), package("A", &[])];
    let order = topological_sort(&packages).unwrap();
    assert_eq!(names(&order), vec!["A", "B", "C"]);
    assert_eq!(publish_order(&packages).unwrap(), vec![2, 1, 0]);
}

#[test]
fn two_packages_that_need_each_other_are_refused() {
    let packages = vec![package("X", &["Y"]), package("Y", &["X"])];
    assert_eq!(topological_sort(&packages), Err(PublishError::CircularDependency));
}

#[test]
fn package_that_needs_itself_is_refused() {
    let packages = vec![package("solo", &["solo"])];
    assert_eq!(topological_sort(&packages), Err(PublishError::CircularDependency));
}

#[test]
fn cycle_beside_free_packages_is_refused() {
    let packages = vec![
        package("free", &[]),
        package("a", &["c"]),
        package("b", &["a"]),
        package("c", &["b"]),
    ];
    assert_eq!(topological_sort(&packages), Err(PublishError::CircularDependency));
}

#[test]
fn independent_packages_are_all_there() {
    let packages = vec![package("one", &[]), package("two", &[]), package("three", &[])];
    let order = topological_sort(&packages).unwrap();
    assert_eq!(order.len(), 3);
    for p in &packages {
        assert!(order.contains(p));
    }
}

#[test]
fn diamond_puts_every_dependency_first() {
    let packages = vec![
        package("top", &["left", "right"]),
        package("left", &["base"]),
        package("right", &["base"]),
        package("base", &[]),
    ];
    let order = topological_sort(&packages).unwrap();
    assert_eq!(order.len(), 4);
    for p in &packages {
        for d in &p.local_dependencies {
            assert!(position(&order, d) < position(&order, &p.name));
        }
    }
}

#[test]
fn dependency_outside_the_list_is_passed_over() {
    let packages = vec![package("app", &["serde", "core"]), package("core", &["tokio"])];
    let order = topological_sort(&packages).unwrap();
    assert_eq!(names(&order), vec!["core", "app"]);
}

#[test]
fn dependency_named_twice_counts_once() {
    let packages = vec![package("app", &["core", "core"]), package("core", &[])];
    let order = topological_sort(&packages).unwrap();
    assert_eq!(names(&order), vec!["core", "app"]);
}

#[test]
fn nothing_gives_nothing() {
    let packages: Vec<Package> = Vec::new();
    assert_eq!(topological_sort(&packages), Ok(Vec::new()));
}

#[test]
fn single_package_is_its_own_order() {
    let packages = vec![package("only", &[])];
    let order = topological_sort(&packages).unwrap();
    assert_eq!(order, packages);
}

#[test]
fn shared_name_is_refused() {
    let packages = vec![package("same", &[]), package("same", &[])];
    assert!(!names_are_distinct(&packages));
    assert_eq!(topological_sort(&packages), Err(PublishError::CircularDependency));
}

#[test]
fn distinct_names_are_told() {
    let packages = vec![package("a", &[]), package("b", &[])];
    assert!(names_are_distinct(&packages));
    assert_eq!(find_package(&packages, &"b".to_string()), Some(1));
    assert_eq!(find_package(&packages, &"c".to_string()), None);
}

#[test]
fn order_keeps_the_packages_whole() {
    let packages = vec![package("B", &["A"]), package("A", &[])];
    let order = topological_sort(&packages).unwrap();
    assert_eq!(order[0], packages[1]);
    assert_eq!(order[1], packages[0]);
}
