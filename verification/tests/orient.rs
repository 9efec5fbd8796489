use paper::orient::{AxialDirection, PlanarDirection, PlaneAxis, ScreenDirection};

#[test]
fn horizontal_directions_come_back() {
    for direction in [ScreenDirection::Left, ScreenDirection::Right] {
        assert_eq!(ScreenDirection::from(PlanarDirection::from(direction)), direction);
    }
}

#[test]
fn vertical_directions_flip() {
    assert_eq!(
        ScreenDirection::from(PlanarDirection::from(ScreenDirection::Up)),
        ScreenDirection::Down
    );
    assert_eq!(
        ScreenDirection::from(PlanarDirection::from(ScreenDirection::Down)),
        ScreenDirection::Up
    );
}

#[test]
fn vertical_directions_lie_on_the_first_axis() {
    let planar = PlanarDirection {
        axis: PlaneAxis::First,
        direction: AxialDirection::Positive,
    };
    assert_eq!(ScreenDirection::from(planar), ScreenDirection::Down);
    assert_eq!(
        ScreenDirection::Down.vertical_direction(),
        Some(AxialDirection::Positive)
    );
    assert_eq!(ScreenDirection::Left.vertical_direction(), None);
    assert_eq!(
        PlanarDirection::from(ScreenDirection::from(planar)).axis,
        PlaneAxis::First
    );
}
