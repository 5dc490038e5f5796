use synthetic_data_generator_for_yolo::services::image_generator::{image_path, paste_order, PasteStep};

#[test]
fn paste_order_puts_distractions_before_objects() {
    assert_eq!(
        paste_order(1, 1),
        vec![PasteStep::Distraction(0), PasteStep::Object(0)]
    );
    assert_eq!(
        paste_order(2, 3),
        vec![
            PasteStep::Distraction(0),
            PasteStep::Distraction(1),
            PasteStep::Object(0),
            PasteStep::Object(1),
            PasteStep::Object(2),
        ]
    );
}

#[test]
fn paste_order_without_distractions_lists_objects_only() {
    assert_eq!(paste_order(0, 1), vec![PasteStep::Object(0)]);
    assert!(paste_order(0, 0).is_empty());
}

#[test]
fn image_is_saved_as_png_named_after_the_recipe() {
    assert_eq!(image_path("/out/test", "42_0"), "/out/test/42_0.png");
}
