use appetizer::resource_store::{LoadableResource, ResourceLoadError, ResourceStore};
use std::sync::atomic::{AtomicUsize, Ordering};

static LOADS: AtomicUsize = AtomicUsize::new(0);

#[derive(Debug, PartialEq)]
struct Shout(String);

impl LoadableResource for Shout {
    type LoadError = String;

    fn load(path: &String) -> Result<Self, String> {
        LOADS.fetch_add(1, Ordering::SeqCst);
        if path.starts_with("missing") {
            Err("no such file".to_string())
        } else {
            Ok(Shout(path.to_uppercase()))
        }
    }
}

#[test]
fn resources_are_loaded_once_and_errors_name_the_path() {
    let mut store: ResourceStore<Shout> = ResourceStore::new();
    let before = LOADS.load(Ordering::SeqCst);
    assert_eq!(store.get("a.png".to_string()).unwrap(), &Shout("A.PNG".to_string()));
    assert_eq!(store.get("a.png".to_string()).unwrap(), &Shout("A.PNG".to_string()));
    assert_eq!(LOADS.load(Ordering::SeqCst) - before, 1);
    assert_eq!(store.get("b.png".to_string()).unwrap(), &Shout("B.PNG".to_string()));
    match store.get("missing.png".to_string()) {
        Err(ResourceLoadError::AcquisitionError { path }) => assert_eq!(path, "missing.png"),
        Ok(_) => panic!("a missing file loaded"),
    }
    assert_eq!(store.get("a.png".to_string()).unwrap(), &Shout("A.PNG".to_string()));
    assert_eq!(LOADS.load(Ordering::SeqCst) - before, 3);
}
