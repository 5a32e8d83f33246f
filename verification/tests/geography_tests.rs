use epirust::geography::{point_factory, HousingArea, Point};
use epirust::random::SimRng;

#[test]
fn generate_points() {
    let mut rng = SimRng::from_seed(11);
    let points: Vec<Point> = point_factory(&mut rng, 5, 10);

    assert_eq!(points.len(), 10);
}

#[test]
fn generate_points_are_distinct_and_in_range() {
    let mut rng = SimRng::from_seed(3);
    let points: Vec<Point> = point_factory(&mut rng, 5, 10);

    assert_eq!(points.len(), 10);
    for p in &points {
        assert!(0 <= p.x && p.x < 5);
        assert!(0 <= p.y && p.y < 5);
    }
    for i in 0..points.len() {
        for j in 0..points.len() {
            if i != j {
                assert_ne!(points[i], points[j]);
            }
        }
    }
}

#[test]
fn generate_points_can_fill_the_grid() {
    let mut rng = SimRng::from_seed(5);
    let points: Vec<Point> = point_factory(&mut rng, 5, 25);

    assert_eq!(points.len(), 25);
}

#[test]
fn generate_housing_area() {
    let housing_area = HousingArea::new(5);

    assert_eq!(housing_area.end_offset, Point { x: 2, y: 5 });
}

#[test]
fn get_neighbor_within() {
    let point1 = Point::new(1, 1);
    let point2 = Point::new(1, 2);
    let point_vector1 = point1.get_neighbor_within(Point::new(0, 0), Point::new(2, 2));
    let point_vector2 = point2.get_neighbor_within(Point::new(0, 0), Point::new(2, 2));

    assert_eq!(point_vector1.len(), 8);
    assert_eq!(point_vector2.len(), 5);
}

#[test]
fn neighbor_cells_interior_point() {
    let point = Point::new(2, 2);
    let neighbors = point.get_neighbor_cells(5);

    assert_eq!(neighbors.len(), 8);
    for n in &neighbors {
        assert!(0 <= n.x && n.x < 5);
        assert!(0 <= n.y && n.y < 5);
        assert_ne!(*n, point);
        assert!((n.x - point.x).abs() <= 1 && (n.y - point.y).abs() <= 1);
    }
}

#[test]
fn neighbor_cells_edge_point() {
    let edge = Point::new(0, 2);
    let neighbors = edge.get_neighbor_cells(5);

    assert_eq!(neighbors.len(), 5);
}

#[test]
fn neighbor_cells_corner_point() {
    let corner = Point::new(0, 0);
    let neighbors = corner.get_neighbor_cells(5);

    assert_eq!(neighbors.len(), 3);
}

#[test]
fn house_dimensions_clip_to_area() {
    let housing_area = HousingArea::new(5);
    let neighbors = housing_area.get_house_dimensions(Point::new(0, 0), 5);

    assert_eq!(neighbors.len(), 3);
}
