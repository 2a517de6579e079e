use checkout::config::{root_config, Config, FileRead, Submodule};
use checkout::failure::Failure;
use checkout::plan::{choose_operation, plan, Operation};

fn strings(list: &[&str]) -> Vec<String> {
    list.iter().map(|s| s.to_string()).collect()
}

fn submodule(categories: &[&str], recursive: Option<bool>) -> Submodule {
    Submodule { categories: strings(categories), recursive, name: None }
}

fn operation(categories: &[&str], bumped: &[&str], ignored: &[&str]) -> Option<Operation> {
    choose_operation(&strings(categories), &strings(bumped), &strings(ignored))
}

#[test]
fn operations_by_category() {
    assert_eq!(operation(&[], &["a"], &["b"]), Some(Operation::Checkout));
    assert_eq!(operation(&["c"], &["a"], &["b"]), Some(Operation::Checkout));
    assert_eq!(operation(&["c", "a"], &["a"], &["b"]), Some(Operation::Bump));
    assert_eq!(operation(&["b"], &["a"], &["b"]), None);
}

#[test]
fn ignoring_wins() {
    assert_eq!(operation(&["a"], &["a"], &["a"]), None);
    assert_eq!(operation(&["a", "b"], &["a"], &["b"]), None);
    assert_eq!(operation(&["b", "a"], &["a"], &["b"]), None);
}

#[test]
fn order_and_repetition_do_not_count() {
    assert_eq!(
        operation(&["a", "c", "a"], &["x", "a"], &["b"]),
        operation(&["c", "a"], &["a", "x", "x"], &["b", "b"])
    );
}

#[test]
fn ignoring_more_only_removes() {
    assert_eq!(operation(&["a", "c"], &["a"], &["b"]), Some(Operation::Bump));
    assert_eq!(operation(&["a", "c"], &["a"], &["b", "d"]), Some(Operation::Bump));
    assert_eq!(operation(&["a", "c"], &["a"], &["b", "c"]), None);
}

#[test]
fn later_configuration_of_a_path_holds() {
    let mut config = Config::new();
    config.insert(4, submodule(&["old"], None));
    config.insert(7, submodule(&["other"], None));
    config.insert(4, submodule(&["new"], Some(false)));
    assert_eq!(config.len(), 2);
    let mut paths = config.paths();
    paths.sort();
    assert_eq!(paths, vec![4, 7]);
    assert_eq!(config.get(4).unwrap().categories, strings(&["new"]));
    assert_eq!(config.get(4).unwrap().recursive, Some(false));
    assert_eq!(config.get(7).unwrap().categories, strings(&["other"]));
    assert!(config.get(5).is_none());
}

#[test]
fn plans_cover_what_is_not_ignored() {
    let mut config = Config::new();
    config.insert(0, submodule(&["a"], None));
    config.insert(1, submodule(&["b", "a"], Some(true)));
    config.insert(2, submodule(&["c"], Some(false)));
    config.insert(
        3,
        Submodule { categories: Vec::new(), recursive: Some(true), name: Some("n".to_string()) },
    );
    let mut plan = plan(&config, &strings(&["a"]), &strings(&["b"]));
    plan.sort_by_key(|item| item.path);
    assert_eq!(plan.len(), 3);
    assert_eq!((plan[0].path, plan[0].operation, plan[0].recursive), (0, Operation::Bump, false));
    assert_eq!(plan[0].categories, strings(&["a"]));
    assert_eq!(
        (plan[1].path, plan[1].operation, plan[1].recursive),
        (2, Operation::Checkout, false)
    );
    assert_eq!(
        (plan[2].path, plan[2].operation, plan[2].recursive),
        (3, Operation::Checkout, true)
    );
    assert_eq!(plan[2].name, Some("n".to_string()));
}

#[test]
fn nested_submodules_follow() {
    let categories = strings(&["a", "z"]);
    let listing = vec![(5, Some("five".to_string())), (6, None), (5, Some("again".to_string()))];
    let config = Config::from_repository(Ok(listing), &categories).unwrap();
    let plan = plan(&config, &strings(&["a"]), &strings(&["b"]));
    assert_eq!(plan.len(), 2);
    for item in &plan {
        assert_eq!(item.operation, Operation::Bump);
        assert!(item.recursive);
        assert_eq!(item.categories, categories);
        let name = if item.path == 5 { Some("again".to_string()) } else { None };
        assert_eq!(item.name, name);
    }
}

#[test]
fn submodules_follow_at_any_depth() {
    let mut config = Config::new();
    config.insert(0, submodule(&["a", "z"], Some(true)));
    for depth in 1..4 {
        let plan = plan(&config, &strings(&["a"]), &strings(&["b"]));
        assert_eq!(plan.len(), depth);
        for item in &plan {
            assert_eq!(item.operation, Operation::Bump);
            assert!(item.recursive);
            assert_eq!(item.categories, strings(&["a", "z"]));
        }
        let listing = (0..depth + 1).map(|path| (path, None)).collect();
        config = Config::from_repository(Ok(listing), &plan[0].categories).unwrap();
    }
}

#[test]
fn submodules_that_cannot_be_listed() {
    let failure =
        Config::from_repository(Err(Failure::new("corrupt".to_string())), &Vec::new()).unwrap_err();
    assert_eq!(failure.message, "Could not load submodules");
    assert_eq!(failure.causes, strings(&["corrupt"]));
}

#[test]
fn configuration_files() {
    assert!(matches!(Config::load("p", FileRead::Missing), Ok(None)));
    assert!(matches!(Config::load("p", FileRead::Parsed(Config::new())), Ok(Some(_))));
    let unreadable = Config::load("p", FileRead::Unreadable).unwrap_err();
    assert_eq!(unreadable.message, "Could not open 'p' as a toml file");
    assert!(unreadable.causes.is_empty());
    let malformed =
        Config::load("p", FileRead::Malformed(Failure::new("line 1".to_string()))).unwrap_err();
    assert_eq!(malformed.message, "Could not deserialize 'p' as a configuration object");
    assert_eq!(malformed.causes, strings(&["line 1"]));
}

#[test]
fn root_configuration() {
    assert!(root_config("r", Ok(Some(Config::new()))).is_ok());
    let missing = root_config("r", Ok(None)).unwrap_err();
    assert_eq!(missing.message, "Could not find 'Checkout.toml' in 'r'");
    assert!(missing.causes.is_empty());
    let broken = root_config("r", Err(Failure::new("bad".to_string()))).unwrap_err();
    assert_eq!(broken.message, "Error reading configuration in 'r'");
    assert_eq!(broken.causes, strings(&["bad"]));
    assert_eq!(checkout::config::CONFIG_FILE, "Checkout.toml");
}
