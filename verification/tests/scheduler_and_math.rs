use wgpu_2d::math::Vector3;
use wgpu_2d::system::Entities;
use wgpu_2d::system::IntoSystem;
use wgpu_2d::system::ResolveError;
use wgpu_2d::system::Resource;
use wgpu_2d::system::Resources;
use wgpu_2d::system::Schedule;
use wgpu_2d::system::Scheduler;
use wgpu_2d::system::System;
use wgpu_2d::system::chain;
use wgpu_2d::timer::Timer;

#[test]
fn it_works() {
    let result = wgpu_2d::add(2, 2);
    assert_eq!(result, 4);
}

#[test]
fn cross_product_of_axes() {
    let x = Vector3 { data: [1, 0, 0, 0] };
    let y = Vector3 { data: [0, 1, 0, 0] };
    let z = x.cross_product(&y);
    assert_eq!(z.data, [0, 0, 1, 0]);
}

#[test]
fn cross_product_exact_values() {
    let a = Vector3 { data: [1, 2, 3, 0] };
    let b = Vector3 { data: [4, 5, 6, 0] };
    let c = a.cross_product(&b);
    assert_eq!(c.data, [-3, 6, -3, 0]);
}

#[derive(Debug)]
struct Score {
    id: u64,
    points: i64,
}

impl Resource for Score {
    fn id_spec(&self) -> u64 {
        self.id
    }

    fn resource_id(&self) -> u64 {
        self.id
    }
}

#[test]
fn resources_store_and_look_up() {
    let mut resources: Resources<Score> = Resources::new();
    resources.add_resource(Score { id: 3, points: 10 });
    let found = resources.get(3).unwrap();
    assert_eq!(found.points, 10);
    let missing = resources.get(4).unwrap_err();
    assert_eq!(missing, ResolveError::NotFound);
}

#[test]
fn resources_mutate_in_place() {
    let mut resources: Resources<Score> = Resources::new();
    resources.add_resource(Score { id: 7, points: 1 });
    {
        let slot = resources.get_mut(7).unwrap();
        slot.points = 42;
    }
    assert_eq!(resources.get(7).unwrap().points, 42);
    assert!(resources.get_mut(9).is_err());
}

#[test]
fn entities_store_components() {
    let mut entities: Entities<i64> = Entities::new();
    let first = entities.get_new_id();
    let second = entities.get_new_id();
    assert_eq!(first, 1);
    assert_eq!(second, 2);
    entities.add_component_to_entity(first, -5);
    assert_eq!(*entities.get_component(first).unwrap(), -5);
    assert!(entities.get_component(second).is_none());
}

struct Probe {
    runs: u64,
    fail: bool,
}

impl System<Score, i64> for Probe {
    fn run(
        &mut self,
        resources: &Resources<Score>,
        _entities: &Entities<i64>,
    ) -> Result<(), ResolveError> {
        self.runs += 1;
        if self.fail {
            return Err(ResolveError::NotFound);
        }
        resources.get(3).map(|_| ())
    }
}

impl IntoSystem<Score, i64> for Probe {
    type Target = Probe;

    fn into_system(self) -> Probe {
        self
    }
}

#[test]
fn scheduler_runs_registered_systems() {
    let mut scheduler: Scheduler<Probe, Score, i64> = Scheduler::new();
    scheduler.add_resource(Score { id: 3, points: 1 });
    scheduler.add_system(Schedule::Update, Probe { runs: 0, fail: false });
    scheduler.add_system(Schedule::Render, Probe { runs: 0, fail: false });
    scheduler.run_schedule(Schedule::Update);
    scheduler.run_schedule(Schedule::Update);
    scheduler.run_schedule(Schedule::Startup);
}

#[test]
fn chained_systems_run_in_order() {
    let mut resources: Resources<Score> = Resources::new();
    resources.add_resource(Score { id: 3, points: 1 });
    let entities: Entities<i64> = Entities::new();
    let mut pair = chain(
        Probe { runs: 0, fail: false },
        Probe { runs: 0, fail: true },
    );
    let first = pair.run(&resources, &entities);
    assert!(first.is_err());
    let second = pair.run(&resources, &entities);
    assert!(second.is_err());
}

#[test]
fn timer_reset_is_callable() {
    let mut timer = Timer::new();
    timer.reset();
    timer.reset();
}
