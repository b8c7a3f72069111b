use life::grid::Grid;
use life::sim::{is_quit, tick_interval_ms, Action, ConfigError, Input, Phase, Simulation, QUIT_KEY};

#[test]
fn interval_is_whole_milliseconds() {
    assert_eq!(tick_interval_ms(3), Ok(333));
    assert_eq!(tick_interval_ms(1), Ok(1000));
    assert_eq!(tick_interval_ms(10), Ok(100));
    assert_eq!(tick_interval_ms(7), Ok(142));
    assert_eq!(tick_interval_ms(1000), Ok(1));
    assert_eq!(tick_interval_ms(1001), Ok(0));
    assert_eq!(tick_interval_ms(u64::MAX), Ok(0));
}

#[test]
fn zero_rate_is_refused() {
    assert_eq!(tick_interval_ms(0), Err(ConfigError::ZeroTickRate));
    let g = Grid::new(3, 3).ok().unwrap();
    assert_eq!(Simulation::new(g, 0).err(), Some(ConfigError::ZeroTickRate));
}

#[test]
fn only_the_quit_key_quits() {
    assert_eq!(QUIT_KEY, 'q');
    assert!(is_quit(Input::Char('q')));
    assert!(!is_quit(Input::Char('Q')));
    assert!(!is_quit(Input::Char('x')));
    assert!(!is_quit(Input::Idle));
    assert!(!is_quit(Input::Other));
}

#[test]
fn tick_renders_advances_and_paces() {
    let g = Grid::with_live_cells(5, 5, &vec![(2, 1), (2, 2), (2, 3)]).ok().unwrap();
    let start = g.cells().clone();
    let mut sim = Simulation::new(g, 3).ok().unwrap();
    assert_eq!(sim.interval_ms, 333);
    assert_eq!(sim.phase, Phase::Running);
    assert_eq!(sim.on_input(Input::Idle), Action::Render);
    assert_eq!(sim.on_input(Input::Char('x')), Action::Render);
    assert_eq!(sim.grid.cells(), &start);
    assert_eq!(sim.advance(), 333);
    assert!(sim.grid.is_alive(1, 2) && sim.grid.is_alive(3, 2) && !sim.grid.is_alive(2, 1));
    assert_eq!(sim.advance(), 333);
    assert_eq!(sim.grid.cells(), &start);
    assert_eq!(sim.phase, Phase::Running);
}

#[test]
fn quit_stops_the_run() {
    let g = Grid::new(2, 2).ok().unwrap();
    let mut sim = Simulation::new(g, 10).ok().unwrap();
    assert_eq!(sim.on_input(Input::Other), Action::Render);
    assert_eq!(sim.on_input(Input::Char('q')), Action::Quit);
    assert_eq!(sim.phase, Phase::Stopped);
    assert_eq!(sim.interval_ms, 100);
}
