//! Where cluster pods pull images from.

use vstd::prelude::*;

use crate::text;
use crate::text_laws;

verus! {

/// The image registry as pods inside the cluster reach it.
pub const INTERNAL_REGISTRY: &'static str = "image-registry.openshift-image-registry.svc:5000";

/// The namespace path that upstream images are pushed under.
pub const UPSTREAM_PATH: &'static str = "/tekton-upstream";

/// The internal registry with the upstream namespace.
pub open spec fn default_location() -> Seq<char> {
    INTERNAL_REGISTRY@ + UPSTREAM_PATH@
}

/// The part of `registry` from its first slash on.
pub open spec fn path_of(registry: Seq<char>) -> Seq<char> {
    registry.skip(choose|at: int| text::is_first(registry, '/', at))
}

/// `path` begins with a slash and has more than slashes in it.
pub open spec fn names_namespace(path: Seq<char>) -> bool {
    &&& path.len() > 0
    &&& path[0] == '/'
    &&& exists|i: int| 0 <= i < path.len() && #[trigger] path[i] != '/'
}

/// `registry` begins with the internal registry, and what follows names a namespace or
/// the upstream namespace is somewhere in it.
pub open spec fn is_location(registry: Seq<char>) -> bool {
    &&& text::has_prefix(registry, INTERNAL_REGISTRY@)
    &&& names_namespace(registry.skip(INTERNAL_REGISTRY@.len() as int)) || text::has_part(
        registry,
        UPSTREAM_PATH@,
    )
}

/// The internal location for `registry`.
///
/// One that is such a location already stands as it is. A host that does not begin with
/// the internal registry is replaced and its path kept. What is left gets the upstream
/// namespace.
pub open spec fn internal_location(registry: Seq<char>) -> Seq<char> {
    if is_location(registry) {
        registry
    } else if !text::has_prefix(registry, INTERNAL_REGISTRY@) && registry.contains('/') {
        INTERNAL_REGISTRY@ + path_of(registry)
    } else {
        default_location()
    }
}

/// The first place of a character is one place.
proof fn lemma_first_is_one_place(s: Seq<char>, c: char, a: int, b: int)
    requires
        text::is_first(s, c, a),
        text::is_first(s, c, b),
    ensures
        a == b,
{
    if a < b {
        assert(s.take(b)[a] == c);
    }
    if b < a {
        assert(s.take(a)[b] == c);
    }
}

/// A text that holds `c` has a first place of it.
proof fn lemma_first_exists(s: Seq<char>, c: char)
    requires
        s.contains(c),
    ensures
        exists|at: int| text::is_first(s, c, at),
    decreases s.len(),
{
    let at = choose|i: int| 0 <= i < s.len() && s[i] == c;
    if s.take(at).contains(c) {
        lemma_first_exists(s.take(at), c);
        let first = choose|i: int| text::is_first(s.take(at), c, i);
        assert(s.take(at).take(first) =~= s.take(first));
        assert(text::is_first(s, c, first));
    } else {
        assert(text::is_first(s, c, at));
    }
}

/// Whether `path` begins with a slash and has more than slashes in it.
fn has_namespace(path: &str) -> (yes: bool)
    ensures
        yes == names_namespace(path@),
{
    let n: usize = path.unicode_len();
    if n == 0 || path.get_char(0) != '/' {
        return false;
    }
    let mut i: usize = 1;
    while i < n
        invariant
            1 <= i <= n,
            n == path@.len(),
            path@[0] == '/',
            forall|k: int| 0 <= k < i ==> path@[k] == '/',
        decreases n - i,
    {
        if path.get_char(i) != '/' {
            return true;
        }
        i = i + 1;
    }
    false
}

/// Convert an external registry route to the internal cluster service URL.
///
/// `default-route-openshift-image-registry.apps.example.com/tekton-upstream`
/// becomes `image-registry.openshift-image-registry.svc:5000/tekton-upstream`. One that
/// already uses the internal service is returned as it is, unless it was passed bare:
/// then it gets the upstream namespace.
pub fn to_internal_registry(registry: &str) -> (internal: String)
    ensures
        internal@ == internal_location(registry@),
{
    let n: usize = registry.unicode_len();
    let mut internal: String = INTERNAL_REGISTRY.to_owned();
    if text::starts_with(registry, INTERNAL_REGISTRY) {
        let host: usize = INTERNAL_REGISTRY.unicode_len();
        assert(registry@.skip(host as int) =~= registry@.subrange(host as int, n as int));
        if has_namespace(registry.substring_char(host, n)) || text::contains(
            registry,
            UPSTREAM_PATH,
        ) {
            return registry.to_owned();
        }
        internal.append(UPSTREAM_PATH);
        return internal;
    }
    match text::find_char(registry, '/') {
        Some(at) => {
            proof {
                let chosen = choose|i: int| text::is_first(registry@, '/', i);
                assert(text::is_first(registry@, '/', at as int));
                lemma_first_is_one_place(registry@, '/', at as int, chosen);
                assert(registry@.contains('/'));
            }
            assert(registry@.skip(at as int) =~= registry@.subrange(at as int, n as int));
            internal.append(registry.substring_char(at, n));
        },
        None => {
            internal.append(UPSTREAM_PATH);
        },
    }
    internal
}

/// The namespace that holds the images of `registry`: what follows its last slash.
pub fn image_namespace(registry: &str) -> (namespace: &str)
    ensures
        namespace@ == text::after_last(registry@, '/'),
{
    text::tail_after(registry, '/')
}

/// The constant texts, character by character where the laws need it.
proof fn lemma_constants()
    ensures
        !INTERNAL_REGISTRY@.contains('/'),
        INTERNAL_REGISTRY@.len() > 0,
        UPSTREAM_PATH@.len() == 16,
        UPSTREAM_PATH@[0] == '/',
        UPSTREAM_PATH@[1] == 't',
{
    reveal_strlit("image-registry.openshift-image-registry.svc:5000");
    reveal_strlit("/tekton-upstream");
}

/// The internal registry with `path` behind it is a location exactly where `path` names a
/// namespace, if `path` begins with a slash.
proof fn lemma_location(path: Seq<char>)
    requires
        path.len() > 0,
        path[0] == '/',
    ensures
        text::has_prefix(INTERNAL_REGISTRY@ + path, INTERNAL_REGISTRY@),
        is_location(INTERNAL_REGISTRY@ + path) <==> names_namespace(path),
{
    lemma_constants();
    let whole = INTERNAL_REGISTRY@ + path;
    let host = INTERNAL_REGISTRY@.len() as int;
    assert(whole.take(host) =~= INTERNAL_REGISTRY@);
    assert(whole.skip(host) =~= path);
    if text::has_part(whole, UPSTREAM_PATH@) {
        let at = choose|at: int| text::occurs_at(whole, UPSTREAM_PATH@, at);
        let part = whole.subrange(at, at + UPSTREAM_PATH@.len());
        assert(part[0] == whole[at]);
        assert(part[1] == whole[at + 1]);
        if at < host {
            assert(INTERNAL_REGISTRY@[at] == '/');
        }
        assert(path[at + 1 - host] == 't');
    }
}

/// Every internal location begins with the internal registry. What follows is a path, or
/// the upstream namespace was in the registry, which then stands as it is. So it always
/// has a path.
pub proof fn law_internal_location_is_internal(registry: Seq<char>)
    ensures
        text::has_prefix(internal_location(registry), INTERNAL_REGISTRY@),
        internal_location(registry).contains('/'),
        ({
            let internal = internal_location(registry);
            let host = INTERNAL_REGISTRY@.len() as int;
            ||| host < internal.len() && internal[host] == '/'
            ||| internal == registry && text::has_part(registry, UPSTREAM_PATH@)
        }),
{
    lemma_constants();
    if !is_location(registry) {
        if !text::has_prefix(registry, INTERNAL_REGISTRY@) && registry.contains('/') {
            lemma_first_exists(registry, '/');
            lemma_location(path_of(registry));
        } else {
            lemma_location(UPSTREAM_PATH@);
        }
    } else if text::has_part(registry, UPSTREAM_PATH@) {
        let at = choose|at: int| text::occurs_at(registry, UPSTREAM_PATH@, at);
        assert(registry.subrange(at, at + UPSTREAM_PATH@.len())[0] == registry[at]);
    }
    let internal = internal_location(registry);
    let host = INTERNAL_REGISTRY@.len() as int;
    if host < internal.len() && internal[host] == '/' {
        assert(internal.contains('/'));
    }
}

/// A registry on the internal service is its own location where its path names a
/// namespace, whatever the namespace is. One that was passed bare, or with slashes only,
/// gets the upstream namespace.
pub proof fn law_internal_namespace_is_kept(path: Seq<char>)
    requires
        path.len() > 0 ==> path[0] == '/',
    ensures
        internal_location(INTERNAL_REGISTRY@ + path) == if names_namespace(path) {
            INTERNAL_REGISTRY@ + path
        } else {
            default_location()
        },
{
    let whole = INTERNAL_REGISTRY@ + path;
    if path.len() > 0 {
        lemma_location(path);
    } else {
        lemma_constants();
        assert(whole =~= INTERNAL_REGISTRY@);
        assert(whole.take(INTERNAL_REGISTRY@.len() as int) =~= INTERNAL_REGISTRY@);
        if text::has_part(whole, UPSTREAM_PATH@) {
            let at = choose|at: int| text::occurs_at(whole, UPSTREAM_PATH@, at);
            assert(whole.subrange(at, at + UPSTREAM_PATH@.len())[0] == whole[at]);
            assert(whole.contains('/'));
        }
    }
}

/// A text that begins with the internal registry but goes on with anything but a slash,
/// such as another port, is no such registry: it is kept only where the upstream
/// namespace is in it.
pub proof fn law_other_ports_are_not_internal(registry: Seq<char>)
    requires
        text::has_prefix(registry, INTERNAL_REGISTRY@),
        INTERNAL_REGISTRY@.len() < registry.len(),
        registry[INTERNAL_REGISTRY@.len() as int] != '/',
    ensures
        internal_location(registry) == if text::has_part(registry, UPSTREAM_PATH@) {
            registry
        } else {
            default_location()
        },
{
}

/// Converting twice is converting once, except for an external route whose path is
/// nothing but slashes: it keeps that path at first, and then gets the upstream namespace.
pub proof fn law_internal_location_is_stable(registry: Seq<char>)
    ensures
        internal_location(internal_location(registry)) == internal_location(registry) <==> !(
        !text::has_prefix(registry, INTERNAL_REGISTRY@) && registry.contains('/')
            && !names_namespace(path_of(registry))),
{
    lemma_constants();
    let internal = internal_location(registry);
    let host = INTERNAL_REGISTRY@.len() as int;
    if !text::has_prefix(registry, INTERNAL_REGISTRY@) && registry.contains('/') {
        let path = path_of(registry);
        lemma_first_exists(registry, '/');
        lemma_location(path);
        if !names_namespace(path) {
            assert(default_location()[host + 1] == 't');
            if internal == default_location() {
                assert(path[1] == internal[host + 1]);
            }
        }
    } else {
        lemma_location(UPSTREAM_PATH@);
        assert(UPSTREAM_PATH@[1] != '/');
    }
}

/// The host of an external route does not show in the internal location: two
/// routes with the same path have the same one.
pub proof fn law_host_is_replaced(host: Seq<char>, other: Seq<char>, path: Seq<char>)
    requires
        !host.contains('/'),
        !other.contains('/'),
        path.len() > 0,
        path[0] == '/',
        !text::has_prefix(host + path, INTERNAL_REGISTRY@),
        !text::has_prefix(other + path, INTERNAL_REGISTRY@),
    ensures
        internal_location(host + path) == INTERNAL_REGISTRY@ + path,
        internal_location(host + path) == internal_location(other + path),
{
    lemma_path(host, path);
    lemma_path(other, path);
}

proof fn lemma_path(host: Seq<char>, path: Seq<char>)
    requires
        !host.contains('/'),
        path.len() > 0,
        path[0] == '/',
    ensures
        (host + path).contains('/'),
        path_of(host + path) == path,
{
    let whole = host + path;
    let at = host.len() as int;
    assert(whole[at] == '/');
    assert(whole.take(at) =~= host);
    assert(text::is_first(whole, '/', at));
    lemma_first_is_one_place(whole, '/', at, choose|i: int| text::is_first(whole, '/', i));
    assert(whole.skip(at) =~= path);
}

/// The image namespace of a registry with a path is what its last slash leaves:
/// no slash is in it, and it ends the registry.
pub proof fn law_image_namespace_is_last_segment(registry: Seq<char>)
    ensures
        !text::after_last(registry, '/').contains('/'),
        registry.contains('/') ==> exists|before: Seq<char>|
            registry == #[trigger] (before + seq!['/']) + text::after_last(registry, '/'),
        !registry.contains('/') ==> text::after_last(registry, '/') == registry,
    decreases registry.len(),
{
    if registry.len() > 0 {
        let shorter = registry.drop_last();
        let tail = text::after_last(registry, '/');
        if registry.last() == '/' {
            assert(registry =~= (shorter + seq!['/']) + tail);
        } else {
            law_image_namespace_is_last_segment(shorter);
            assert(tail == text::after_last(shorter, '/').push(registry.last()));
            if registry.contains('/') {
                let i = choose|i: int| 0 <= i < registry.len() && registry[i] == '/';
                assert(shorter[i] == '/');
                let before = choose|before: Seq<char>|
                    shorter == #[trigger] (before + seq!['/']) + text::after_last(shorter, '/');
                let head = before + seq!['/'];
                assert(head + tail =~= (head + text::after_last(shorter, '/')).push(registry.last()));
                assert(registry =~= shorter.push(registry.last()));
                assert(registry == (before + seq!['/']) + tail);
            } else {
                assert(!shorter.contains('/'));
                assert(tail =~= registry);
            }
            assert(!tail.contains('/')) by {
                if tail.contains('/') {
                    let i = choose|i: int| 0 <= i < tail.len() && tail[i] == '/';
                    assert(text::after_last(shorter, '/')[i] == '/');
                }
            }
        }
    }
}

/// The location of an external route has the internal service in place of its host and
/// keeps its path, from the first slash on and whatever it is. A route without a path
/// gets the upstream namespace.
pub proof fn law_external_route_keeps_its_path(host: Seq<char>, path: Seq<char>)
    requires
        !host.contains('/'),
        path.len() > 0 ==> path[0] == '/',
        forall|rest: Seq<char>|
            host + path != #[trigger] ("image-registry.openshift-image-registry.svc:5000"@ + rest),
    ensures
        path.len() > 0 ==> internal_location(host + path)
            == "image-registry.openshift-image-registry.svc:5000"@ + path,
        path.len() == 0 ==> internal_location(host + path)
            == "image-registry.openshift-image-registry.svc:5000"@ + "/tekton-upstream"@,
{
    text_laws::law_prefix_is_what_comes_first(host + path, INTERNAL_REGISTRY@);
    if path.len() > 0 {
        lemma_path(host, path);
    } else {
        assert(host + path =~= host);
    }
}

/// A registry on the internal service stays as it is where a segment of its path is not
/// empty, whatever it is called. Bare, or with nothing but slashes, it gets the upstream
/// namespace.
pub proof fn law_internal_registry_keeps_its_namespace(path: Seq<char>, i: int)
    requires
        path.len() > 0 ==> path[0] == '/',
        0 <= i <= path.len(),
        forall|k: int| 0 <= k < i ==> #[trigger] path[k] == '/',
        i < path.len() ==> path[i] != '/',
    ensures
        i < path.len() ==> internal_location(
            "image-registry.openshift-image-registry.svc:5000"@ + path,
        ) == "image-registry.openshift-image-registry.svc:5000"@ + path,
        i == path.len() ==> internal_location(
            "image-registry.openshift-image-registry.svc:5000"@ + path,
        ) == "image-registry.openshift-image-registry.svc:5000"@ + "/tekton-upstream"@,
{
    law_internal_namespace_is_kept(path);
}

/// A text that only begins like the internal service is kept where the upstream namespace
/// is somewhere in it, and gives way to the internal service with that namespace where it
/// is not.
pub proof fn law_only_the_upstream_namespace_is_kept_elsewhere(rest: Seq<char>)
    requires
        rest.len() > 0,
        rest[0] != '/',
    ensures
        (exists|a: Seq<char>, b: Seq<char>|
            "image-registry.openshift-image-registry.svc:5000"@ + rest == #[trigger] (a
                + "/tekton-upstream"@ + b)) ==> internal_location(
            "image-registry.openshift-image-registry.svc:5000"@ + rest,
        ) == "image-registry.openshift-image-registry.svc:5000"@ + rest,
        (forall|a: Seq<char>, b: Seq<char>|
            "image-registry.openshift-image-registry.svc:5000"@ + rest != #[trigger] (a
                + "/tekton-upstream"@ + b)) ==> internal_location(
            "image-registry.openshift-image-registry.svc:5000"@ + rest,
        ) == "image-registry.openshift-image-registry.svc:5000"@ + "/tekton-upstream"@,
{
    let whole = INTERNAL_REGISTRY@ + rest;
    let host = INTERNAL_REGISTRY@.len() as int;
    assert(whole.take(host) =~= INTERNAL_REGISTRY@);
    assert(whole[host] == rest[0]);
    text_laws::law_part_stands_between(whole, UPSTREAM_PATH@);
    law_other_ports_are_not_internal(whole);
}

/// The image namespace of a registry is what stands behind its last slash; a text without
/// a slash is its own.
pub proof fn law_image_namespace_stands_behind_the_last_slash(
    before: Seq<char>,
    namespace: Seq<char>,
)
    requires
        !namespace.contains('/'),
    ensures
        text::after_last(before + seq!['/'] + namespace, '/') == namespace,
        text::after_last(namespace, '/') == namespace,
{
    text_laws::law_tail_stands_behind_the_last(before, namespace, '/');
}

} // verus!
