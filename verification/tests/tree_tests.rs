use jenkins_api::{AdvancedQuery, InternalAdvancedQueryParams, TreeBuilder, TreeQueryParam};

#[test]
fn object_with_subfields_serializes_with_brackets() {
    let tree = TreeBuilder::object("builds")
        .with_subfield(TreeQueryParam::leaf("url"))
        .with_subfield(TreeQueryParam::leaf("result"))
        .build();
    assert_eq!(tree.to_string(), "builds[url,result]");
}

#[test]
fn root_fields_serialize_without_brackets() {
    let tree = TreeBuilder::new()
        .with_field(TreeQueryParam::leaf("field1"))
        .with_field(TreeQueryParam::leaf("field2"))
        .build();
    assert_eq!(tree.to_string(), "field1,field2");
}

#[test]
fn keyed_leaf_serializes_as_its_key() {
    assert_eq!(TreeQueryParam::leaf("name").to_string(), "name");
    assert_eq!(TreeBuilder::object("name").build().to_string(), "name");
}

#[test]
fn nested_objects_serialize_recursively() {
    let tree = TreeBuilder::object("builds")
        .with_subfield(TreeQueryParam::leaf("url"))
        .with_subfield(
            TreeBuilder::object("actions")
                .with_subfield(TreeQueryParam::leaf("causes"))
                .into(),
        )
        .build();
    assert_eq!(tree.to_string(), "builds[url,actions[causes]]");
}

#[test]
fn serialization_is_stable() {
    let tree = TreeBuilder::object("builds")
        .with_subfield(TreeQueryParam::leaf("url"))
        .build();
    assert_eq!(tree.to_string(), tree.to_string());
}

#[test]
fn default_builder_is_empty_root() {
    let tree = TreeBuilder::default().build();
    assert_eq!(tree.to_string(), "");
}

#[test]
fn depth_query_populates_depth_only() {
    let wire: InternalAdvancedQueryParams = AdvancedQuery::Depth(2).into();
    assert_eq!(wire.depth, Some(2));
    assert!(wire.tree.is_none());
}

#[test]
fn tree_query_populates_tree_only() {
    let tree = TreeBuilder::object("builds")
        .with_subfield(TreeQueryParam::leaf("url"))
        .build();
    let wire: InternalAdvancedQueryParams = AdvancedQuery::Tree(tree).into();
    assert!(wire.depth.is_none());
    let sent = wire.tree.expect("tree should be populated");
    assert_eq!(sent.to_string(), "builds[url]");
}

#[test]
fn tree_wraps_into_a_query() {
    let query: Option<AdvancedQuery> = TreeQueryParam::leaf("url").into();
    assert!(matches!(query, Some(AdvancedQuery::Tree(_))));
}
