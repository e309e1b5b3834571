use rustyracer_engine::ecs::component::{ComponentStorage, SparseStorage};
use rustyracer_engine::ecs::entity::{Entity, EntityGenerator};
use rustyracer_engine::ecs::query::Query;
use rustyracer_engine::ecs::scheduler::{ExecutionStage, Scheduler};
use rustyracer_engine::ecs::system::{system, FunctionSystem, System};
use rustyracer_engine::ecs::world::World;

#[derive(Debug, Clone, PartialEq)]
struct Position(i64, i64);

#[derive(Debug, Clone, PartialEq)]
struct Name(String);

#[derive(Debug, Clone, PartialEq)]
struct Log(Vec<u32>);

#[test]
fn entity_generator_counts_up_from_zero() {
    let mut g = EntityGenerator::new();
    assert_eq!(g.generate(), Entity(0));
    assert_eq!(g.generate(), Entity(1));
    assert_eq!(g.generate(), Entity(2));
    let mut d = EntityGenerator::default();
    assert_eq!(d.generate(), Entity(0));
}

#[test]
fn entity_label_is_decimal() {
    assert_eq!(Entity(0).to_string(), "Entity(0)");
    assert_eq!(Entity(9).to_string(), "Entity(9)");
    assert_eq!(Entity(10).to_string(), "Entity(10)");
    assert_eq!(Entity(42).to_string(), "Entity(42)");
    assert_eq!(Entity(u64::MAX).to_string(), "Entity(18446744073709551615)");
}

#[test]
fn sparse_storage_insert_get_update() {
    let mut s: SparseStorage<u32> = SparseStorage::new();
    assert!(s.is_empty());
    s.insert(Entity(5), 50);
    s.insert(Entity(2), 20);
    assert_eq!(s.get(Entity(5)), Some(&50));
    assert_eq!(s.get(Entity(2)), Some(&20));
    assert_eq!(s.get(Entity(3)), None);
    assert_eq!(s.get(Entity(1000)), None);
    s.insert(Entity(5), 55);
    assert_eq!(s.get(Entity(5)), Some(&55));
    assert_eq!(ComponentStorage::len(&s), 2);
    if let Some(c) = s.get_mut(Entity(2)) {
        *c = 21;
    }
    assert_eq!(s.get(Entity(2)), Some(&21));
    assert!(s.get_mut(Entity(9)).is_none());
}

#[test]
fn sparse_storage_remove_keeps_other_components() {
    let mut s: SparseStorage<u32> = SparseStorage::new();
    for id in 0..6u64 {
        s.insert(Entity(id), id as u32 * 10);
    }
    // Remove from the middle: the last component moves into the gap.
    assert_eq!(s.remove(Entity(1)), Some(10));
    assert_eq!(s.get(Entity(1)), None);
    for id in [0u64, 2, 3, 4, 5] {
        assert_eq!(s.get(Entity(id)), Some(&(id as u32 * 10)));
    }
    assert_eq!(s.remove(Entity(1)), None);
    assert_eq!(s.remove(Entity(5)), Some(50));
    assert_eq!(s.remove(Entity(0)), Some(0));
    assert_eq!(ComponentStorage::len(&s), 3);
    assert!(ComponentStorage::has(&s, Entity(3)));
    assert!(!ComponentStorage::has(&s, Entity(0)));
    let mut listed: Vec<(u64, u32)> = s.iter().into_iter().map(|(e, c)| (e.0, *c)).collect();
    listed.sort();
    assert_eq!(listed, vec![(2, 20), (3, 30), (4, 40)]);
}

#[test]
fn world_components_and_destroy() {
    let mut w = World::new();
    let a = w.create_entity();
    let b = w.create_entity();
    assert_eq!(a, Entity(0));
    assert_eq!(b, Entity(1));
    w.add_component(a, Position(1, 2));
    w.add_component(a, Name("car".to_string()));
    w.add_component(b, Position(3, 4));
    assert_eq!(w.get_component::<Position>(a), Some(&Position(1, 2)));
    assert_eq!(w.get_component::<Name>(b), None);
    assert!(w.has_component::<Name>(a));
    assert!(!w.has_component::<Name>(b));
    if let Some(p) = w.get_component_mut::<Position>(b) {
        p.0 = 30;
    }
    assert_eq!(w.get_component::<Position>(b), Some(&Position(30, 4)));
    let mut all: Vec<u64> = w.iter_components::<Position>().into_iter().map(|(e, _)| e.0).collect();
    all.sort();
    assert_eq!(all, vec![0, 1]);
    w.destroy_entity(a);
    assert!(!w.has_component::<Position>(a));
    assert!(!w.has_component::<Name>(a));
    assert_eq!(w.get_component::<Position>(a), None);
    assert_eq!(w.get_component::<Position>(b), Some(&Position(30, 4)));
}

#[test]
fn world_resources_replace_by_type() {
    let mut w = World::default();
    assert!(w.get_resource::<u32>().is_none());
    w.add_resource(7u32);
    w.add_resource(String::from("gravity"));
    assert_eq!(w.get_resource::<u32>(), Some(&7));
    w.add_resource(9u32);
    assert_eq!(w.get_resource::<u32>(), Some(&9));
    assert_eq!(w.get_resource::<String>().map(|s| s.as_str()), Some("gravity"));
    if let Some(v) = w.get_resource_mut::<u32>() {
        *v += 1;
    }
    assert_eq!(w.get_resource::<u32>(), Some(&10));
    assert!(w.get_resource::<u64>().is_none());
}

struct Recorder(u32);

impl System for Recorder {
    fn cleanup(&mut self, _world: &mut World) {}

    fn run(&mut self, world: &mut World) {
        let mut log = world.get_resource::<Log>().cloned().unwrap_or(Log(Vec::new()));
        log.0.push(self.0);
        world.add_resource(log);
    }

    fn initialize(&mut self, world: &mut World) {
        world.add_resource(Log(Vec::new()));
    }
}

#[test]
fn scheduler_runs_systems_in_insertion_order() {
    let mut world = World::new();
    let mut s = Scheduler::new();
    s.add_system(Recorder(1));
    s.add_system(Recorder(2));
    s.add_system(system(|w: &mut World| {
        let mut log = w.get_resource::<Log>().cloned().unwrap();
        log.0.push(3);
        w.add_resource(log);
    }));
    s.initialize(&mut world);
    s.run(&mut world);
    s.run(&mut world);
    s.cleanup(&mut world);
    assert_eq!(world.get_resource::<Log>(), Some(&Log(vec![1, 2, 3, 1, 2, 3])));
    let _ = ExecutionStage::Physics;
}

#[test]
fn function_system_runs_its_closure() {
    let mut world = World::new();
    let mut f = FunctionSystem::new(|w: &mut World| w.add_resource(5u8));
    f.run(&mut world);
    assert_eq!(world.get_resource::<u8>(), Some(&5));
}

#[test]
fn query_yields_entities_with_all_components() {
    let mut w = World::new();
    let a = w.create_entity();
    let b = w.create_entity();
    let c = w.create_entity();
    w.add_component(a, Position(1, 1));
    w.add_component(b, Position(2, 2));
    w.add_component(b, Name("b".to_string()));
    w.add_component(c, Name("c".to_string()));
    let q: Query<&Position> = Query::new(&w);
    assert_eq!(q.iter(), vec![&Position(1, 1), &Position(2, 2)]);
    let q2: Query<(&Position, &Name)> = Query::new(&w);
    let both = q2.iter();
    assert_eq!(both.len(), 1);
    assert_eq!(both[0].1, &Name("b".to_string()));
    let q3: Query<&mut Position> = Query::new(&w);
    assert!(q3.iter().is_empty());
}

#[test]
fn sparse_storage_mutable_access_by_position() {
    let mut s: SparseStorage<i64> = SparseStorage::new();
    s.insert(Entity(4), 40);
    s.insert(Entity(1), 10);
    s.insert(Entity(9), 90);
    for i in 0..s.len() {
        if let Some((_e, c)) = s.get_mut_at(i) {
            *c += 1;
        }
    }
    assert!(s.get_mut_at(s.len()).is_none());
    assert_eq!(s.get(Entity(4)), Some(&41));
    assert_eq!(s.get(Entity(1)), Some(&11));
    assert_eq!(s.get(Entity(9)), Some(&91));
    let (e, _) = s.get_mut_at(0).unwrap();
    assert_eq!(e, Entity(4));
    assert_eq!(s.remove(Entity(4)), Some(41));
    assert_eq!(s.len(), 2);
    assert_eq!(s.remove(Entity(4)), None);
    assert_eq!(s.len(), 2);
}

#[test]
fn query_sees_components_of_ids_never_created() {
    let mut w = World::new();
    let a = w.create_entity();
    w.add_component(a, Position(1, 1));
    w.add_component(Entity(7), Position(7, 7));
    let q: Query<&Position> = Query::new(&w);
    assert_eq!(q.iter(), vec![&Position(1, 1), &Position(7, 7)]);
    // Entity ids keep counting from where creation left off.
    assert_eq!(w.create_entity(), Entity(1));
}
