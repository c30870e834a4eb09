use antiknob::api::registry::{commands, for_surface, input_schema_json, Kind, On, Param};

#[test]
fn every_command_has_one_canonical_name_and_a_cli_spelling() {
    let all = commands();
    assert_eq!(all.len(), 24);
    let mut names: Vec<&str> = all.iter().map(|c| c.name).collect();
    names.sort();
    names.dedup();
    assert_eq!(names.len(), 24, "names are unique");
    let status = all.iter().find(|c| c.name == "get_status").unwrap();
    assert_eq!(status.cli_name(), "status");
    let slots = all.iter().find(|c| c.name == "bind_slots").unwrap();
    assert_eq!(slots.cli_name(), "bind-slots");
    let probe = all.iter().find(|c| c.name == "probe_gestures").unwrap();
    assert_eq!(probe.cli_name(), "probe-gestures");
}

#[test]
fn a_command_missing_from_a_surface_says_why() {
    for c in commands() {
        for reach in [c.cli, c.mcp] {
            if let antiknob::api::registry::Reach::No(why) = reach {
                assert!(!why.is_empty(), "{} is absent without a reason", c.name);
            }
        }
    }
}

#[test]
fn each_surface_lists_only_its_commands_in_table_order() {
    let mcp: Vec<&str> = for_surface(true).iter().map(|c| c.name).collect();
    assert!(mcp.contains(&"bind_sequence"));
    assert!(mcp.contains(&"ping"));
    assert!(!mcp.contains(&"validate"));
    assert!(!mcp.contains(&"listen"));
    let cli: Vec<&str> = for_surface(false).iter().map(|c| c.name).collect();
    assert!(cli.contains(&"validate"));
    assert!(!cli.contains(&"ping"));
    assert_eq!(cli[0], "get_status");
    assert_eq!(cli.len(), 16);
    assert_eq!(mcp.len(), 18);
}

#[test]
fn parameter_builders_set_what_they_say() {
    let p = Param::opt("layer", Kind::Int, "Device layer").positional().default("0").only(On::CliOnly);
    assert!(p.positional);
    assert_eq!(p.default, Some("0"));
    assert!(p.on_surface(false));
    assert!(!p.on_surface(true));
    let f = Param::flag("json", "JSON");
    assert_eq!(f.kind, Kind::Flag);
    assert!(!f.required && f.on_surface(true) && f.on_surface(false));
    let r = Param::req("key", Kind::Int, "Slot").only(On::McpOnly);
    assert!(r.required && r.on_surface(true) && !r.on_surface(false));
}

#[test]
fn all_tools_have_unique_names_and_valid_schemas() {
    let tools = for_surface(true);
    let mut names: Vec<&str> = Vec::new();
    for tool in &tools {
        assert!(!names.contains(&tool.name), "Duplicate tool name: {}", tool.name);
        names.push(tool.name);
        assert!(!tool.about.is_empty());
        let schema: serde_json::Value = serde_json::from_str(&input_schema_json(&tool.params_on(true))).unwrap();
        assert_eq!(schema["type"], "object");
    }
}

#[test]
fn a_tool_schema_lists_its_parameters() {
    let tools = for_surface(true);
    let seq = tools.iter().find(|t| t.name == "bind_sequence").unwrap();
    let schema: serde_json::Value = serde_json::from_str(&input_schema_json(&seq.params_on(true))).unwrap();
    let props = schema["properties"].as_object().unwrap();
    let mut keys: Vec<&str> = props.keys().map(|k| k.as_str()).collect();
    keys.sort();
    assert_eq!(keys, vec!["actions", "delay_ms", "key", "layer"]);
    assert_eq!(props["key"]["type"], "integer");
    assert_eq!(props["layer"]["default"], "0");
    assert_eq!(props["actions"]["type"], "array");
    assert_eq!(props["actions"]["items"]["type"], "string");
    assert_eq!(schema["required"], serde_json::Value::from(vec!["key", "actions"]));
    let upload = tools.iter().find(|t| t.name == "upload_keymap").unwrap();
    let schema: serde_json::Value = serde_json::from_str(&input_schema_json(&upload.params_on(true))).unwrap();
    let about = schema["properties"]["yaml"]["description"].as_str().unwrap();
    assert_eq!(about, "Layout YAML as a string");
    let none = input_schema_json(&vec![]);
    assert_eq!(none, "{\"type\":\"object\",\"properties\":{}}");
}

#[test]
fn both_commands_are_in_the_tool_list() {
    let names: Vec<&str> = for_surface(true).iter().map(|t| t.name).collect();
    assert!(names.contains(&"get_virtual_layer"), "{names:?}");
    assert!(names.contains(&"set_virtual_variant"), "{names:?}");
}

#[test]
fn a_tool_carries_its_mcp_parameters() {
    let tools = for_surface(true);
    let upload = tools.iter().find(|t| t.name == "upload_keymap").unwrap();
    let on_mcp: Vec<&str> = upload.params.iter().filter(|p| p.on_surface(true)).map(|p| p.name).collect();
    assert_eq!(on_mcp, vec!["yaml", "layer"]);
    let yaml = upload.params.iter().find(|p| p.name == "yaml").unwrap();
    assert!(yaml.required);
    assert_eq!(yaml.kind, Kind::Str);
    assert_eq!(yaml.on, On::McpOnly);
}

#[test]
fn each_surface_gets_its_own_parameters_in_order() {
    let all = commands();
    let slots = all.iter().find(|c| c.name == "read_slots").unwrap();
    let mcp: Vec<&str> = slots.params_on(true).iter().map(|p| p.name).collect();
    assert_eq!(mcp, vec!["full", "group", "counters"]);
    let cli: Vec<&str> = slots.params_on(false).iter().map(|p| p.name).collect();
    assert_eq!(cli, vec!["full", "config", "wide"]);
    let keys = all.iter().find(|c| c.name == "show_keys").unwrap();
    assert!(keys.params_on(true).is_empty());
}

#[test]
fn kinds_declare_their_json_types() {
    assert_eq!(Kind::Flag.schema_type(), "boolean");
    assert_eq!(Kind::Str.schema_type(), "string");
    assert_eq!(Kind::Int.schema_type(), "integer");
    assert_eq!(Kind::IntList.schema_type(), "array");
    assert_eq!(Kind::StrList.schema_type(), "array");
    assert_eq!(Kind::IntList.item_type(), Some("integer"));
    assert_eq!(Kind::StrList.item_type(), Some("string"));
    assert_eq!(Kind::Int.item_type(), None);
}

#[test]
fn schema_text_escapes_like_a_json_writer() {
    let p = Param::opt("q", Kind::Str, "say \"hi\"\\ \n\t\u{1}\u{8}\u{c} \u{e9}").default("a\"b");
    let text = input_schema_json(&vec![p]);
    let schema: serde_json::Value = serde_json::from_str(&text).unwrap();
    assert_eq!(schema["properties"]["q"]["description"], "say \"hi\"\\ \n\t\u{1}\u{8}\u{c} \u{e9}");
    assert_eq!(schema["properties"]["q"]["default"], "a\"b");
    assert!(text.contains(r#""say \"hi\"\\ \n\t\u0001\b\f é""#), "{text}");
}
