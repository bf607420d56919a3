use planit::cosmos::comet::Comet;
use planit::cosmos::galaxy::{CelestialBodyIndex, Galaxy};
use planit::cosmos::planet::Planet;
use planit::cosmos::star::Star;
use planit::cosmos::{CelestialBody, CelestialBodyKind, Status};

#[test]
fn comet_changing_status_adds_to_history() {
    let mut comet = Comet::default();
    let t1 = chrono::Utc::now().timestamp_millis();
    comet.status(Status::Start, "1".to_string());
    let t2 = chrono::Utc::now().timestamp_millis();
    comet.status(Status::Done, "2".to_string());
    let t3 = chrono::Utc::now().timestamp_millis();

    assert_eq!(comet.history.len(), 2);

    assert_eq!(comet.history[0].comment, "1");
    assert_eq!(comet.history[0].old_status, Status::Todo);
    assert_eq!(comet.history[0].new_status, Status::Start);
    assert!(t1 <= comet.history[0].time && comet.history[0].time <= t2);

    assert_eq!(comet.history[1].comment, "2");
    assert_eq!(comet.history[1].old_status, Status::Start);
    assert_eq!(comet.history[1].new_status, Status::Done);
    assert!(t2 <= comet.history[1].time && comet.history[1].time <= t3);
}

#[test]
fn planet_changing_status_adds_to_history() {
    let mut planet = Planet::default();
    let t1 = chrono::Utc::now().timestamp_millis();
    planet.status(Status::Start, "1".to_string());
    let t2 = chrono::Utc::now().timestamp_millis();
    planet.status(Status::Done, "2".to_string());
    let t3 = chrono::Utc::now().timestamp_millis();

    assert_eq!(planet.history.len(), 2);

    assert_eq!(planet.history[0].comment, "1");
    assert_eq!(planet.history[0].old_status, Status::Todo);
    assert_eq!(planet.history[0].new_status, Status::Start);
    assert!(t1 <= planet.history[0].time && planet.history[0].time <= t2);

    assert_eq!(planet.history[1].comment, "2");
    assert_eq!(planet.history[1].old_status, Status::Start);
    assert_eq!(planet.history[1].new_status, Status::Done);
    assert!(t2 <= planet.history[1].time && planet.history[1].time <= t3);
}

#[test]
fn star_changing_status_adds_to_history() {
    let mut star = Star::default();
    let t1 = chrono::Utc::now().timestamp_millis();
    star.status(Status::Start, "1".to_string());
    let t2 = chrono::Utc::now().timestamp_millis();
    star.status(Status::Done, "2".to_string());
    let t3 = chrono::Utc::now().timestamp_millis();

    assert_eq!(star.history.len(), 2);

    assert_eq!(star.history[0].comment, "1");
    assert_eq!(star.history[0].old_status, Status::Todo);
    assert_eq!(star.history[0].new_status, Status::Start);
    assert!(t1 <= star.history[0].time && star.history[0].time <= t2);

    assert_eq!(star.history[1].comment, "2");
    assert_eq!(star.history[1].old_status, Status::Start);
    assert_eq!(star.history[1].new_status, Status::Done);
    assert!(t2 <= star.history[1].time && star.history[1].time <= t3);
}

#[test]
fn created_comet_added_to_vec_and_map() {
    let mut galaxy = Galaxy::default();
    let _ = galaxy.comet();

    assert_eq!(galaxy.comets.len(), 1);
    assert_eq!(galaxy.id_to_index.len(), 1);

    let id = galaxy.comets.first().unwrap().id;
    assert_eq!(
        galaxy.index(id),
        Some(CelestialBodyIndex::new(CelestialBodyKind::Comet, 0))
    );
}

#[test]
fn created_planet_added_to_vec_and_map() {
    let mut galaxy = Galaxy::default();
    let _ = galaxy.planet();

    assert_eq!(galaxy.planets.len(), 1);
    assert_eq!(galaxy.id_to_index.len(), 1);

    let id = galaxy.planets.first().unwrap().id;
    assert_eq!(
        galaxy.index(id),
        Some(CelestialBodyIndex::new(CelestialBodyKind::Planet, 0))
    );
}

#[test]
fn created_star_added_to_vec_and_map() {
    let mut galaxy = Galaxy::default();
    let _ = galaxy.star();

    assert_eq!(galaxy.stars.len(), 1);
    assert_eq!(galaxy.id_to_index.len(), 1);

    let id = galaxy.stars.first().unwrap().id;
    assert_eq!(
        galaxy.index(id),
        Some(CelestialBodyIndex::new(CelestialBodyKind::Star, 0))
    );
}

#[test]
fn from_parts_rebuilds_the_index() {
    let mut comet = Comet::default();
    comet.id = 0;
    let mut planet = Planet::default();
    planet.id = 1;
    let mut star = Star::default();
    star.id = 2;
    let galaxy = Galaxy::from_parts(
        "Test".to_string(),
        "This is a test".to_string(),
        3,
        vec![comet],
        vec![planet],
        vec![star],
    );

    assert_eq!(galaxy.title, "Test");
    assert_eq!(galaxy.next_id, 3);
    assert_eq!(galaxy.id_to_index.len(), 3);
    assert_eq!(
        galaxy.index(0),
        Some(CelestialBodyIndex::new(CelestialBodyKind::Comet, 0))
    );
    assert_eq!(
        galaxy.index(1),
        Some(CelestialBodyIndex::new(CelestialBodyKind::Planet, 0))
    );
    assert_eq!(
        galaxy.index(2),
        Some(CelestialBodyIndex::new(CelestialBodyKind::Star, 0))
    );
    assert_eq!(galaxy.index(3), None);
}
