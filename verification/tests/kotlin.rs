use msym::kotlin::{
    add_import, rename_field_upper_camel, set_extension_class, set_package, transform,
    TransformConfig,
};

#[test]
fn single_word() {
    let src = "public val home: ImageVector\nprivate var _home: ImageVector? = null\nname = \"home\"";
    let out = rename_field_upper_camel(src, "home");
    assert!(out.contains("public val Home: ImageVector"));
    assert!(out.contains("private var _Home: ImageVector? = null"));
    assert!(out.contains("name = \"Home\""));
}

#[test]
fn multi_word() {
    let src = "public val arrow_back: ImageVector\nif (_arrow_back != null) return _arrow_back!!\nname = \"arrow_back\"";
    let out = rename_field_upper_camel(src, "arrow_back");
    assert!(out.contains("public val ArrowBack: ImageVector"));
    assert!(out.contains("if (_ArrowBack != null) return _ArrowBack!!"));
    assert!(out.contains("name = \"ArrowBack\""));
    // The inner `arrow_back` of `_arrow_back` must not be replaced separately.
    assert!(!out.contains("_arrow_back"));
    assert!(!out.contains("_ArrowBack_arrow"));
}

#[test]
fn does_not_touch_substrings() {
    // `homeless` and `homepage` must not be affected.
    let src = "public val home: ImageVector\nval homeless = 1\nval homepage = 2";
    let out = rename_field_upper_camel(src, "home");
    assert!(out.contains("public val Home: ImageVector"));
    assert!(out.contains("val homeless = 1"));
    assert!(out.contains("val homepage = 2"));
}

#[test]
fn already_pascal_is_noop() {
    let src = "public val Home: ImageVector";
    let out = rename_field_upper_camel(src, "Home");
    assert_eq!(out, src);
}

#[test]
fn extension_class_inserts_receiver() {
    let src = "@Suppress(\"CheckReturnValue\")\npublic val home: ImageVector\n  get() = _home!!\n\nprivate var _home: ImageVector? = null";
    let out = set_extension_class(src, "Rounded");
    assert!(out.contains("public val Rounded.home: ImageVector"));
    // backing field untouched
    assert!(out.contains("private var _home: ImageVector? = null"));
}

#[test]
fn extension_class_after_upper_camel() {
    let src = "public val arrow_back: ImageVector\nprivate var _arrow_back: ImageVector? = null";
    let renamed = rename_field_upper_camel(src, "arrow_back");
    let out = set_extension_class(&renamed, "Rounded");
    assert!(out.contains("public val Rounded.ArrowBack: ImageVector"));
    assert!(out.contains("private var _ArrowBack: ImageVector? = null"));
}

#[test]
fn extension_class_single_segment() {
    let src = "public val home: ImageVector";
    let out = set_extension_class(src, "Symbols");
    assert!(out.contains("public val Symbols.home: ImageVector"));
}

#[test]
fn add_import_appends_to_block() {
    let src = "package com.example\n\nimport androidx.compose.ui.graphics.Color\nimport androidx.compose.ui.unit.dp\n\npublic val home: ImageVector";
    let out = add_import(src, "com.example.icons.Symbols.Rounded");
    let lines: Vec<&str> = out.lines().collect();
    let import_idx = lines
        .iter()
        .position(|l| *l == "import com.example.icons.Symbols.Rounded")
        .unwrap();
    // stays within the import block, before the blank line / body
    assert!(
        import_idx < lines.iter().rposition(|l| l.starts_with("import ")).unwrap()
            || lines[import_idx + 1].is_empty()
    );
    assert!(out.contains("import androidx.compose.ui.unit.dp"));
}

#[test]
fn add_import_dedupes() {
    let src = "package com.example\n\nimport com.example.icons.Symbols.Rounded\n\npublic val home: ImageVector";
    let out = add_import(src, "com.example.icons.Symbols.Rounded");
    assert_eq!(out, src);
}

#[test]
fn add_import_without_block_after_package() {
    let src = "package com.example\n\npublic val home: ImageVector";
    let out = add_import(src, "com.example.icons.Symbols.Rounded");
    assert!(out.contains("package com.example\nimport com.example.icons.Symbols.Rounded"));
}

#[test]
fn transform_full_pipeline() {
    let src = "package com.google.fonts\n\npublic val arrow_back: ImageVector\n  get() = _arrow_back!!\n\nprivate var _arrow_back: ImageVector? = null";
    let cfg = TransformConfig {
        package: "com.example.icons".to_string(),
        field_name: "arrow_back".to_string(),
        upper_camel_fields: true,
        extension_class: Some("com.example.icons.Symbols.Rounded".to_string()),
    };
    let out = transform(src, &cfg);
    assert!(out.contains("package com.example.icons"));
    assert!(out.contains("import com.example.icons.Symbols.Rounded"));
    assert!(out.contains("public val Rounded.ArrowBack: ImageVector"));
    assert!(out.contains("private var _ArrowBack: ImageVector? = null"));
}

#[test]
fn transform_package_only() {
    let src = "package com.google.fonts\n\npublic val home: ImageVector";
    let cfg = TransformConfig {
        package: "com.example.icons".to_string(),
        field_name: "home".to_string(),
        upper_camel_fields: false,
        extension_class: None,
    };
    let out = transform(src, &cfg);
    assert!(out.contains("package com.example.icons"));
    assert!(!out.contains("import com.example"));
    assert!(out.contains("public val home: ImageVector"));
}
