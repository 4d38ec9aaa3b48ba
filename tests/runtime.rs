use game_runtime::runtime::{Actor, Runtime};
use game_runtime::timer::Timer;

const SECOND: u64 = 1_000_000_000;

struct Probe {
    ticking: bool,
    inits: u32,
    updates: u32,
    ticks: u32,
}

impl Probe {
    fn new(ticking: bool) -> Probe {
        Probe { ticking, inits: 0, updates: 0, ticks: 0 }
    }
}

impl Actor for Probe {
    fn init(&mut self) {
        self.inits += 1;
    }

    fn update(&mut self) {
        assert_eq!(self.inits, 1);
        self.updates += 1;
    }

    fn render(&self) {}

    fn on_tick(&mut self) {
        assert!(self.ticking);
        self.ticks += 1;
    }

    fn uses_tick(&self) -> bool {
        self.ticking
    }
}

struct Plain;

impl Actor for Plain {
    fn init(&mut self) {}
    fn update(&mut self) {}
    fn render(&self) {}
}

#[test]
fn three_actors_hundred_frames() {
    let mut rt: Runtime<Probe> = Runtime::new();
    assert!(rt.register_actor(Probe::new(true), Some(Timer::new(SECOND, 0))));
    assert!(!rt.register_actor(Probe::new(false), None));
    assert!(!rt.register_actor(Probe::new(false), Some(Timer::new(SECOND, 0))));
    let mut fired = [0u32; 3];
    for frame in 0..100u64 {
        let now = frame * 25_000_000;
        let ticked = rt.run_frame(now);
        assert_eq!(ticked.len(), 3);
        for (i, t) in ticked.iter().enumerate() {
            if *t {
                fired[i] += 1;
            }
        }
    }
    assert_eq!(fired, [2, 0, 0]);
    assert_eq!(rt.actor(0).ticks, 2);
    assert_eq!(rt.actor(1).ticks, 0);
    assert_eq!(rt.actor(2).ticks, 0);
    for i in 0..3 {
        assert_eq!(rt.actor(i).inits, 1);
        assert_eq!(rt.actor(i).updates, 100);
    }
}

#[test]
fn sixty_fps_over_two_and_a_half_seconds() {
    let mut rt: Runtime<Probe> = Runtime::new();
    rt.register_actor(Probe::new(true), Some(Timer::new(SECOND, 0)));
    let frame = SECOND / 60;
    let mut now: u64 = 0;
    while now <= 2 * SECOND + SECOND / 2 {
        rt.run_frame(now);
        now += frame;
    }
    assert_eq!(rt.actor(0).ticks, 2);
}

#[test]
fn ticking_actor_without_timer_never_ticks() {
    let mut rt: Runtime<Probe> = Runtime::new();
    assert!(rt.register_actor(Probe::new(true), None));
    for f in 0..10u64 {
        assert_eq!(rt.run_frame(f * SECOND), vec![false]);
    }
    assert_eq!(rt.actor(0).ticks, 0);
    assert_eq!(rt.actor(0).updates, 10);
}

#[test]
fn on_tick_matches_timer_result() {
    let mut rt: Runtime<Probe> = Runtime::new();
    rt.register_actor(Probe::new(true), Some(Timer::new(100, 0)));
    rt.register_actor(Probe::new(true), Some(Timer::new(30, 0)));
    assert_eq!(rt.run_frame(50), vec![false, true]);
    assert_eq!(rt.run_frame(79), vec![false, false]);
    assert_eq!(rt.run_frame(100), vec![true, true]);
    assert_eq!(rt.actor(0).ticks, 1);
    assert_eq!(rt.actor(1).ticks, 2);
}

#[test]
fn default_actor_does_not_tick() {
    let mut rt: Runtime<Plain> = Runtime::new();
    assert!(!rt.register_actor(Plain, Some(Timer::new(0, 0))));
    assert_eq!(rt.run_frame(1), vec![false]);
    assert_eq!(rt.len(), 1);
}

#[test]
fn empty_runtime_frame() {
    let mut rt: Runtime<Plain> = Runtime::new();
    assert_eq!(rt.len(), 0);
    assert!(rt.run_frame(0).is_empty());
}
