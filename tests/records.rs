use craft_server::model::{Craft, Hardware, Point};
use craft_server::json::{
    craft_from_json, craft_round_trip, craft_to_json, hardware_to_json, point_to_json, JsonError,
};

#[test]
fn example_craft_fields() {
    let c = Craft::example();
    assert_eq!(c, Craft::new(12, 1, 2, 2, Point::new(10, 22, 9)));
}

#[test]
fn hardware_from_counts_swaps_names() {
    let h = Hardware::from_counts(16, 8);
    assert_eq!(h.cpu_count, 8);
    assert_eq!(h.core_count, 16);
}

#[test]
fn point_json_text() {
    let p = Point::new(-1, 0, 2147483647);
    assert_eq!(point_to_json(&p), "{\"x\":-1,\"y\":0,\"z\":2147483647}");
}

#[test]
fn craft_json_negative_and_extreme_numbers() {
    let c = Craft::new(i32::MIN, -7, 0, i32::MAX, Point::new(-10, 100, -1));
    assert_eq!(
        craft_to_json(&c),
        "{\"fuel\":-2147483648,\"vel_x\":-7,\"vel_y\":0,\"vel_z\":2147483647,\"location\":{\"x\":-10,\"y\":100,\"z\":-1}}"
    );
}

#[test]
fn hardware_json_text() {
    let h = Hardware::from_counts(12, 6);
    assert_eq!(hardware_to_json(&h), "{\"cpu_count\":6,\"core_count\":12}");
}

#[test]
fn craft_reads_back_from_its_json() {
    let c = Craft::new(i32::MIN, -7, 0, i32::MAX, Point::new(-10, 100, -1));
    let text = craft_to_json(&c);
    assert_eq!(craft_from_json(&text), Ok(c));
}

#[test]
fn example_craft_round_trip() {
    let c = Craft::example();
    let (text, back) = craft_round_trip(&c).unwrap();
    assert_eq!(
        text,
        "{\"fuel\":12,\"vel_x\":1,\"vel_y\":2,\"vel_z\":2,\"location\":{\"x\":10,\"y\":22,\"z\":9}}"
    );
    assert_eq!(back, c);
    assert_eq!(back.location, Point::new(10, 22, 9));
}

#[test]
fn craft_from_literal_json() {
    let text = "{\"fuel\":3,\"vel_x\":-4,\"vel_y\":5,\"vel_z\":6,\"location\":{\"x\":7,\"y\":-8,\"z\":9}}";
    assert_eq!(craft_from_json(text), Ok(Craft::new(3, -4, 5, 6, Point::new(7, -8, 9))));
}

#[test]
fn craft_from_bad_json_is_decode_error() {
    let bad = [
        "",
        "{}",
        "not json",
        "{\"fuel\":12,\"vel_x\":1,\"vel_y\":2,\"vel_z\":2,\"location\":{\"x\":10,\"y\":22,\"z\":9}}extra",
        "{\"fuel\":12,\"vel_x\":1,\"vel_y\":2,\"vel_z\":2,\"location\":{\"x\":10,\"y\":22}}",
        "{\"fuel\":99999999999,\"vel_x\":1,\"vel_y\":2,\"vel_z\":2,\"location\":{\"x\":10,\"y\":22,\"z\":9}}",
        "{\"fuel\":-,\"vel_x\":1,\"vel_y\":2,\"vel_z\":2,\"location\":{\"x\":10,\"y\":22,\"z\":9}}",
    ];
    for t in bad {
        assert_eq!(craft_from_json(t), Err(JsonError::Decode), "{}", t);
    }
}
