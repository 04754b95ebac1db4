use std::path::Path;
use weather_signal::paths::{
    config_link_step, link_destination, path_parent, LinkStep, MAX_CONFIG_SYMLINK_HOPS,
};

const SAMPLES: &[&str] = &[
    "", "/", "//", "a", "a/", "a/b", "a/b/", "a//b//", "/a", "/a/", "//a", "/a/b", "./a",
    "./", ".", "./.", "a/./b", "a/b/.", "a/.", "..", "../a", "a/..", "/..", ".a", ".a/b",
    "a/.b", "/./a", "/.", "a/b/c/d", "./a/b/", "config.toml", "/home/u/.config/w/config.toml",
];

fn std_parent(p: &str) -> Option<String> {
    Path::new(p)
        .parent()
        .map(|d| d.to_str().unwrap().to_string())
}

#[test]
fn parent_matches_std_path() {
    for p in SAMPLES {
        let ours = path_parent(&p.as_bytes().to_vec()).map(|d| String::from_utf8(d).unwrap());
        assert_eq!(ours, std_parent(p), "parent of {p:?}");
    }
}

#[test]
fn link_destination_matches_std_join() {
    for link in SAMPLES {
        for target in ["b", "../c", "/abs/x", "d/", "./e", ""] {
            let expected = if Path::new(target).is_absolute() {
                Path::new(target).to_path_buf()
            } else {
                Path::new(link)
                    .parent()
                    .unwrap_or_else(|| Path::new("."))
                    .join(target)
            };
            let ours = link_destination(&link.as_bytes().to_vec(), target.as_bytes().to_vec());
            assert_eq!(
                String::from_utf8(ours).unwrap(),
                expected.to_str().unwrap(),
                "link {link:?} -> {target:?}"
            );
        }
    }
}

#[test]
fn link_steps_stop_at_the_limit() {
    assert_eq!(MAX_CONFIG_SYMLINK_HOPS, 32);
    match config_link_step(0, b"/etc/cfg".to_vec(), None) {
        LinkStep::SaveAt(p) => assert_eq!(p, b"/etc/cfg".to_vec()),
        _ => panic!("a plain file is saved in place"),
    }
    match config_link_step(0, b"/home/u/cfg".to_vec(), Some(b"real.toml".to_vec())) {
        LinkStep::Inspect(p) => assert_eq!(p, b"/home/u/real.toml".to_vec()),
        _ => panic!("a relative link is read from its directory"),
    }
    match config_link_step(30, b"/x".to_vec(), Some(b"/y".to_vec())) {
        LinkStep::Inspect(p) => assert_eq!(p, b"/y".to_vec()),
        _ => panic!("the thirty-first link is still followed"),
    }
    assert!(matches!(
        config_link_step(31, b"/x".to_vec(), Some(b"/y".to_vec())),
        LinkStep::TooDeep
    ));
    match config_link_step(31, b"/x".to_vec(), None) {
        LinkStep::SaveAt(p) => assert_eq!(p, b"/x".to_vec()),
        _ => panic!("the last path inspected may still be saved"),
    }
}

/// Follows `start` through the links of `links` as the config save does.
fn resolve(start: &str, links: &[(&str, &str)]) -> Option<String> {
    let mut current = start.as_bytes().to_vec();
    let mut hops = 0;
    loop {
        let target = links
            .iter()
            .find(|(link, _)| link.as_bytes() == current.as_slice())
            .map(|(_, target)| target.as_bytes().to_vec());
        match config_link_step(hops, current, target) {
            LinkStep::SaveAt(found) => return Some(String::from_utf8(found).unwrap()),
            LinkStep::Inspect(next) => {
                current = next;
                hops += 1;
            }
            LinkStep::TooDeep => return None,
        }
    }
}

#[test]
fn symlink_chains_resolve_to_the_final_target() {
    let chain = [
        ("/d/config.toml", "/d/middle.toml"),
        ("/d/middle.toml", "/d/target.toml"),
    ];
    assert_eq!(resolve("/d/config.toml", &chain), Some("/d/target.toml".to_string()));
    let dangling = [("/d/config.toml", "target.toml")];
    assert_eq!(resolve("/d/config.toml", &dangling), Some("/d/target.toml".to_string()));
    assert_eq!(resolve("/d/plain.toml", &chain), Some("/d/plain.toml".to_string()));
    let cycle = [("/d/a", "b"), ("/d/b", "a")];
    assert_eq!(resolve("/d/a", &cycle), None);
}
