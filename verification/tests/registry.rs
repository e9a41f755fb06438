use operator_deploy::registry::{image_namespace, to_internal_registry};

#[test]
fn external_route_becomes_internal_service() {
    assert_eq!(
        to_internal_registry("default-route-openshift-image-registry.apps.example.com/tekton-upstream"),
        "image-registry.openshift-image-registry.svc:5000/tekton-upstream"
    );
}

#[test]
fn image_namespace_is_the_last_segment() {
    assert_eq!(image_namespace("host/a/b"), "b");
    assert_eq!(image_namespace("host"), "host");
    assert_eq!(image_namespace("host/"), "");
}

#[test]
fn internal_registry_with_upstream_namespace_stays() {
    let internal = "image-registry.openshift-image-registry.svc:5000/tekton-upstream";
    assert_eq!(to_internal_registry(internal), internal);
    let nested = "image-registry.openshift-image-registry.svc:5000/a/tekton-upstream/b";
    assert_eq!(to_internal_registry(nested), nested);
}

#[test]
fn bare_internal_registry_gets_upstream_namespace() {
    let expected = "image-registry.openshift-image-registry.svc:5000/tekton-upstream";
    assert_eq!(to_internal_registry("image-registry.openshift-image-registry.svc:5000"), expected);
    assert_eq!(to_internal_registry("image-registry.openshift-image-registry.svc:5000/"), expected);
    assert_eq!(to_internal_registry("image-registry.openshift-image-registry.svc:5000//"), expected);
}

#[test]
fn another_port_is_not_the_internal_registry() {
    let expected = "image-registry.openshift-image-registry.svc:5000/tekton-upstream";
    assert_eq!(
        to_internal_registry("image-registry.openshift-image-registry.svc:50001/foo"),
        expected
    );
    assert_eq!(to_internal_registry("image-registry.openshift-image-registry.svc:50001"), expected);
    let upstream = "image-registry.openshift-image-registry.svc:50001/tekton-upstream";
    assert_eq!(to_internal_registry(upstream), upstream);
}

#[test]
fn internal_registry_keeps_its_own_namespace() {
    let own = "image-registry.openshift-image-registry.svc:5000/my-ns";
    assert_eq!(to_internal_registry(own), own);
    assert_eq!(image_namespace(&to_internal_registry(own)), "my-ns");
    let short = "image-registry.openshift-image-registry.svc:5000/a";
    assert_eq!(to_internal_registry(short), short);
}

#[test]
fn registry_without_path_gets_upstream_namespace() {
    let expected = "image-registry.openshift-image-registry.svc:5000/tekton-upstream";
    assert_eq!(to_internal_registry("registry.example.com"), expected);
    assert_eq!(to_internal_registry(""), expected);
}

#[test]
fn path_of_an_external_route_is_kept() {
    assert_eq!(
        to_internal_registry("registry.example.com/a/b"),
        "image-registry.openshift-image-registry.svc:5000/a/b"
    );
    assert_eq!(
        to_internal_registry("registry.example.com/"),
        "image-registry.openshift-image-registry.svc:5000/"
    );
    assert_eq!(
        to_internal_registry("ü.example.com/ä"),
        "image-registry.openshift-image-registry.svc:5000/ä"
    );
}

#[test]
fn conversion_is_stable_but_for_paths_of_slashes() {
    for registry in ["registry.example.com/tekton-upstream", "registry.example.com/other", "", "a"] {
        let once = to_internal_registry(registry);
        assert_eq!(to_internal_registry(&once), once);
    }
    for registry in ["registry.example.com/", "registry.example.com//"] {
        let once = to_internal_registry(registry);
        assert_ne!(to_internal_registry(&once), once);
    }
}

#[test]
fn hosts_with_the_same_path_have_one_location() {
    assert_eq!(to_internal_registry("a.example.com/x"), to_internal_registry("b.example.com/x"));
}
