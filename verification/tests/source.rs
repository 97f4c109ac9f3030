use cit_item::item::{ClassificationError, ItemSource, ViewSource};

#[test]
fn png_is_a_texture() {
    for path in ["skin.png", "foo/bar.png", "/abs/dir/a.b.png", "dir/skin.png/", "./x.png"] {
        match ViewSource::new(path) {
            Ok(ViewSource::Texture(held)) => assert_eq!(held, path),
            other => panic!("{:?} gave {:?}", path, other),
        }
    }
}

#[test]
fn bbmodel_is_a_model() {
    for path in ["sword.bbmodel", "models/sword.bbmodel", "a.png.bbmodel"] {
        match ViewSource::new(path) {
            Ok(ViewSource::Model(held)) => assert_eq!(held, path),
            other => panic!("{:?} gave {:?}", path, other),
        }
    }
}

#[test]
fn any_other_extension_is_unsupported_and_named() {
    let cases = [
        ("notes.txt", "txt"),
        ("skin.PNG", "PNG"),
        ("skin.png.bak", "bak"),
        ("skin.jpeg", "jpeg"),
        ("model.bbmodels", "bbmodels"),
        ("skin.pn", "pn"),
        ("trailing.", ""),
        ("dir.png/file.json", "json"),
    ];
    for (path, ext) in cases {
        match ViewSource::new(path) {
            Err(ClassificationError::UnsupportedExtension(found)) => assert_eq!(found, ext),
            other => panic!("{:?} gave {:?}", path, other),
        }
    }
}

#[test]
fn no_extension_is_missing_extension() {
    for path in ["skin", "dir.png/skin", ".png", "", "/", "..", "dir/..", "png"] {
        match ViewSource::new(path) {
            Err(ClassificationError::MissingExtension) => {}
            other => panic!("{:?} gave {:?}", path, other),
        }
    }
}

#[test]
fn classification_errors_have_their_messages() {
    assert_eq!(
        ClassificationError::MissingExtension.message(),
        "File extension is incorrect"
    );
    assert_eq!(
        ClassificationError::UnsupportedExtension("txt".to_string()).message(),
        "txt extension is not texture or model"
    );
    assert_eq!(
        ViewSource::new("a.jpeg").unwrap_err().message(),
        "jpeg extension is not texture or model"
    );
}

#[test]
fn path_gives_back_what_was_classified() {
    assert_eq!(ViewSource::new("foo/bar.png").unwrap().path(), "foo/bar.png");
    assert_eq!(ViewSource::new("m.bbmodel").unwrap().path(), "m.bbmodel");
}

#[test]
fn item_source_is_classified_by_its_extension_not_its_kind() {
    let texture = ItemSource::Texture { texture: "a/skin.png".to_string() };
    assert!(matches!(ViewSource::from_item_source(&texture), Ok(ViewSource::Texture("a/skin.png"))));
    let model = ItemSource::Model { model: "a/sword.bbmodel".to_string() };
    assert!(matches!(ViewSource::from_item_source(&model), Ok(ViewSource::Model("a/sword.bbmodel"))));
    let crossed = ItemSource::Texture { texture: "a/sword.bbmodel".to_string() };
    assert!(matches!(ViewSource::from_item_source(&crossed), Ok(ViewSource::Model("a/sword.bbmodel"))));
    let crossed = ItemSource::Model { model: "a/skin.png".to_string() };
    assert!(matches!(ViewSource::from_item_source(&crossed), Ok(ViewSource::Texture("a/skin.png"))));
}

#[test]
fn item_source_errors_are_those_of_the_path() {
    let bare = ItemSource::Texture { texture: "skin".to_string() };
    assert!(matches!(
        ViewSource::from_item_source(&bare),
        Err(ClassificationError::MissingExtension)
    ));
    let other = ItemSource::Model { model: "sword.obj".to_string() };
    match ViewSource::from_item_source(&other) {
        Err(ClassificationError::UnsupportedExtension(found)) => assert_eq!(found, "obj"),
        outcome => panic!("gave {:?}", outcome),
    }
}
