use stem::pin_props::{traverse_props, JsonValue};

fn s(x: &str) -> String {
    x.to_string()
}

fn google_maps_props() -> JsonValue {
    JsonValue::Object(vec![
        (s("date"), JsonValue::Str(s("2024-01-01T00:00:00Z"))),
        (s("google_maps_url"), JsonValue::Str(s("http://maps.google.com/?cid=1"))),
        (
            s("location"),
            JsonValue::Object(vec![
                (s("address"), JsonValue::Str(s("211 S La Brea Ave"))),
                (s("country_code"), JsonValue::Str(s("US"))),
                (s("name"), JsonValue::Str(s("Aurora LA"))),
            ]),
        ),
    ])
}

#[test]
fn tags_and_name_of_a_place() {
    let mut tags = vec![];
    let mut name = None;
    traverse_props(&google_maps_props(), "", &mut tags, &mut name);
    assert_eq!(name, Some(s("Aurora LA")));
    assert_eq!(
        tags,
        vec![
            (s("date"), s("2024-01-01T00:00:00Z")),
            (s("google_maps_url"), s("http://maps.google.com/?cid=1")),
            (s("location.address"), s("211 S La Brea Ave")),
            (s("location.country_code"), s("US")),
        ]
    );
}

#[test]
fn arrays_scalars_and_non_string_names() {
    let v = JsonValue::Object(vec![
        (s("NAME"), JsonValue::Number(s("3"))),
        (s("list"), JsonValue::Array(vec![JsonValue::Bool(true), JsonValue::Null, JsonValue::Str(s("x"))])),
        (s("Name"), JsonValue::Str(s("second"))),
    ]);
    let mut tags = vec![(s("kept"), s("old"))];
    let mut name = Some(s("first"));
    traverse_props(&v, "", &mut tags, &mut name);
    assert_eq!(name, Some(s("second")));
    assert_eq!(
        tags,
        vec![
            (s("kept"), s("old")),
            (s("NAME"), s("3")),
            (s("list[0]"), s("true")),
            (s("list[1]"), s("null")),
            (s("list[2]"), s("x")),
        ]
    );
}

#[test]
fn a_scalar_at_the_top_is_one_tag() {
    let mut tags = vec![];
    let mut name = Some(s("kept"));
    traverse_props(&JsonValue::Number(s("1.5")), "p", &mut tags, &mut name);
    assert_eq!(tags, vec![(s("p"), s("1.5"))]);
    assert_eq!(name, Some(s("kept")));
}
