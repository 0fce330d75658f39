use pathtracer::material::MaterialLoader;
use pathtracer::resource_manager::{ResourceLoader, ResourceManager};
use std::sync::Arc;

struct Halver {}

impl ResourceLoader<u32> for Halver {
    type Args = u32;

    fn load(&self, data: &u32) -> Result<u32, String> {
        if data % 2 == 0 {
            Ok(data / 2)
        } else {
            Err(format!("{} is odd", data))
        }
    }
}

struct Shouter {}

impl ResourceLoader<String> for Shouter {
    type Args = str;

    fn load(&self, data: &str) -> Result<String, String> {
        Ok(data.to_uppercase())
    }
}

#[test]
fn new_table_is_empty() {
    let table: ResourceManager<u32, Halver> = ResourceManager::new(Halver {});
    assert_eq!(table.next_id(), 0);
    assert!(table.get(&0).is_none());
    assert!(table.get(&u32::MAX).is_none());
}

#[test]
fn load_issues_ascending_handles() {
    let mut table = ResourceManager::new(Halver {});
    assert_eq!(table.load(&10), 0);
    assert_eq!(table.load(&20), 1);
    assert_eq!(table.load(&30), 2);
    assert_eq!(table.next_id(), 3);
    assert_eq!(*table.get(&0).unwrap(), 5);
    assert_eq!(*table.get(&1).unwrap(), 10);
    assert_eq!(*table.get(&2).unwrap(), 15);
    assert!(table.get(&3).is_none());
}

#[test]
fn failed_load_uses_up_a_handle() {
    let mut table = ResourceManager::new(Halver {});
    assert_eq!(table.load(&7), 0);
    assert!(table.get(&0).is_none());
    assert_eq!(table.load(&8), 1);
    assert_eq!(*table.get(&1).unwrap(), 4);
    assert_eq!(table.next_id(), 2);
}

#[test]
fn failed_load_keeps_what_was_set_under_the_handle() {
    let mut table = ResourceManager::new(Halver {});
    table.set(0, 99);
    assert_eq!(table.load(&3), 0);
    assert_eq!(*table.get(&0).unwrap(), 99);
    table.set(1, 77);
    assert_eq!(table.load(&4), 1);
    assert_eq!(*table.get(&1).unwrap(), 2);
}

#[test]
fn store_loaded_takes_either_outcome() {
    let mut table = ResourceManager::new(Halver {});
    assert_eq!(table.store_loaded(Ok(41)), 0);
    assert_eq!(table.store_loaded(Err(String::from("gone"))), 1);
    assert_eq!(table.store_loaded(Ok(43)), 2);
    assert_eq!(*table.get(&0).unwrap(), 41);
    assert!(table.get(&1).is_none());
    assert_eq!(*table.get(&2).unwrap(), 43);
}

#[test]
fn load_with_unsized_description() {
    let mut table = ResourceManager::new(Shouter {});
    let id = table.load("brass");
    assert_eq!(id, 0);
    assert_eq!(table.get(&id).unwrap().as_str(), "BRASS");
}

#[test]
fn set_replaces_and_does_not_issue_handles() {
    let mut table = ResourceManager::new(Halver {});
    table.set(5, 1);
    table.set(5, 2);
    table.set(9, 3);
    assert_eq!(*table.get(&5).unwrap(), 2);
    assert_eq!(*table.get(&9).unwrap(), 3);
    assert_eq!(table.next_id(), 0);
}

#[test]
fn get_shares_the_stored_resource() {
    let mut table = ResourceManager::new(Halver {});
    table.set(1, 12);
    let first = table.get(&1).unwrap();
    let second = table.get(&1).unwrap();
    assert!(Arc::ptr_eq(&first, &second));
    assert_eq!(Arc::strong_count(&first), 3);
}

#[test]
fn get_mut_changes_the_resource_in_place() {
    let mut table = ResourceManager::new(Halver {});
    table.set(1, 12);
    table.set(2, 13);
    assert!(table.get_mut(&0).is_none());
    {
        let slot = table.get_mut(&1).unwrap();
        assert_eq!(**slot, 12);
        *slot = Arc::new(50);
    }
    assert_eq!(*table.get(&1).unwrap(), 50);
    assert_eq!(*table.get(&2).unwrap(), 13);
    *Arc::get_mut(table.get_mut(&2).unwrap()).unwrap() += 1;
    assert_eq!(*table.get(&2).unwrap(), 14);
}

#[test]
fn material_loader_copies_the_description() {
    let loader = MaterialLoader {};
    assert_eq!(loader.load(&(0.5f32, 7u32)), Ok((0.5f32, 7u32)));
    let mut table: ResourceManager<(f32, u32), MaterialLoader> =
        ResourceManager::new(MaterialLoader {});
    let a = table.load(&(1.0, 1));
    let b = table.load(&(0.25, 2));
    assert_eq!((a, b), (0, 1));
    assert_eq!(*table.get(&a).unwrap(), (1.0, 1));
    assert_eq!(*table.get(&b).unwrap(), (0.25, 2));
}
