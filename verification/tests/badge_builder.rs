use badgers::badge::{ColorPalette, SCALE_ONE};
use badgers::badge_builder::BadgeBuilder;

#[test]
fn scale_one_is_the_number_one() {
    assert_eq!(f32::from_bits(SCALE_ONE), 1.0);
    assert_eq!(SCALE_ONE, 1.0f32.to_bits());
}

#[test]
fn a_fresh_builder_gives_the_defaults() {
    let badge = BadgeBuilder::new().build();
    assert_eq!(badge.status(), "");
    assert_eq!(f32::from_bits(badge.scale()), 1.0);
    assert_eq!(badge.label(), None);
    assert_eq!(badge.color(), None);
    assert_eq!(badge.label_color(), None);
    assert_eq!(badge.icon(), None);
    assert_eq!(badge.icon_width(), None);
    assert_eq!(badge.color_palette().name(), "badgen");
    assert_eq!(badge.color_palette().name(), ColorPalette::built_in().name());
}

#[test]
fn every_setter_reaches_the_badge() {
    let badge = BadgeBuilder::new()
        .color_palette(ColorPalette::named("shields"))
        .status("passing")
        .label("build")
        .color("green")
        .label_color("#555")
        .icon("feather-check")
        .icon_width(13)
        .scale(2.5f32.to_bits())
        .build();
    assert_eq!(badge.color_palette().name(), "shields");
    assert_eq!(badge.status(), "passing");
    assert_eq!(badge.label(), Some("build"));
    assert_eq!(badge.color(), Some("green"));
    assert_eq!(badge.label_color(), Some("#555"));
    assert_eq!(badge.icon(), Some("feather-check"));
    assert_eq!(badge.icon_width(), Some(13));
    assert_eq!(f32::from_bits(badge.scale()), 2.5);
}

#[test]
fn the_last_label_wins() {
    let badge = BadgeBuilder::new().label("a").label("b").build();
    assert_eq!(badge.label(), Some("b"));
}

#[test]
fn the_last_call_of_every_setter_wins() {
    let badge = BadgeBuilder::new()
        .color_palette(ColorPalette::named("one"))
        .color_palette(ColorPalette::named("two"))
        .status("a")
        .status("b")
        .color("red")
        .color("blue")
        .label_color("black")
        .label_color("white")
        .icon("x-home")
        .icon("x-star")
        .icon_width(1)
        .icon_width(2)
        .scale(3.0f32.to_bits())
        .scale(0.5f32.to_bits())
        .build();
    assert_eq!(badge.color_palette().name(), "two");
    assert_eq!(badge.status(), "b");
    assert_eq!(badge.color(), Some("blue"));
    assert_eq!(badge.label_color(), Some("white"));
    assert_eq!(badge.icon(), Some("x-star"));
    assert_eq!(badge.icon_width(), Some(2));
    assert_eq!(f32::from_bits(badge.scale()), 0.5);
}

#[test]
fn an_optional_color_of_none_clears_the_color() {
    let badge = BadgeBuilder::new().color("red").color_option(None).build();
    assert_eq!(badge.color(), None);
}

#[test]
fn an_optional_color_of_some_sets_the_color() {
    let badge = BadgeBuilder::new().color("red").color_option(Some("blue")).build();
    assert_eq!(badge.color(), Some("blue"));
    let badge = BadgeBuilder::new().color_option(Some("blue")).build();
    assert_eq!(badge.color(), Some("blue"));
}

#[test]
fn an_optional_color_leaves_the_other_fields_alone() {
    let badge = BadgeBuilder::new().label("l").status("s").color("red").color_option(None).build();
    assert_eq!(badge.label(), Some("l"));
    assert_eq!(badge.status(), "s");
}

#[test]
fn the_order_of_setters_does_not_matter() {
    let one = BadgeBuilder::new().status("s").label("l").color("c").icon("i").build();
    let two = BadgeBuilder::new().icon("i").color("c").label("l").status("s").build();
    assert_eq!(one.status(), two.status());
    assert_eq!(one.label(), two.label());
    assert_eq!(one.color(), two.color());
    assert_eq!(one.icon(), two.icon());
    assert_eq!(one.label_color(), two.label_color());
    assert_eq!(one.scale(), two.scale());
}

#[test]
fn an_empty_label_is_not_an_unset_label() {
    let badge = BadgeBuilder::new().label("").build();
    assert_eq!(badge.label(), Some(""));
    let badge = BadgeBuilder::new().status("").build();
    assert_eq!(badge.status(), "");
}

#[test]
fn setters_do_not_validate() {
    let badge = BadgeBuilder::new().icon("no such icon").color("no such colour").build();
    assert_eq!(badge.icon(), Some("no such icon"));
    assert_eq!(badge.color(), Some("no such colour"));
}
