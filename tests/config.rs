use blackhole::config::{ConfigCache, ConfigEvent, WatchedObject};
use blackhole::job::{BlackholeSpec, Quantity, Resources};

fn spec_with_cpu(amount: &str) -> BlackholeSpec {
    BlackholeSpec {
        resources: Some(Resources {
            claims: None,
            limits: Some(vec![Quantity { resource: "cpu".to_string(), amount: amount.to_string() }]),
            requests: None,
        }),
    }
}

fn object(name: &str, namespace: &str, amount: &str) -> WatchedObject {
    WatchedObject { name: name.to_string(), namespace: namespace.to_string(), spec: spec_with_cpu(amount) }
}

fn cpu_limit(c: &ConfigCache) -> Option<String> {
    let s = c.get()?;
    Some(s.resources?.limits?[0].amount.clone())
}

#[test]
fn cache_starts_empty() {
    let c = ConfigCache::new("blackhole", "media-server");
    assert!(c.get().is_none());
}

#[test]
fn cache_follows_the_named_resource() {
    let mut c = ConfigCache::new("blackhole", "media-server");
    c.apply(ConfigEvent::Applied(object("blackhole", "media-server", "1")));
    assert_eq!(cpu_limit(&c), Some("1".to_string()));
    c.apply(ConfigEvent::Applied(object("blackhole", "media-server", "2")));
    assert_eq!(cpu_limit(&c), Some("2".to_string()));
    c.apply(ConfigEvent::Applied(object("other", "media-server", "3")));
    c.apply(ConfigEvent::Applied(object("blackhole", "elsewhere", "4")));
    assert_eq!(cpu_limit(&c), Some("2".to_string()));
    c.apply(ConfigEvent::Deleted { name: "other".to_string(), namespace: "media-server".to_string() });
    assert_eq!(cpu_limit(&c), Some("2".to_string()));
    c.apply(ConfigEvent::Deleted { name: "blackhole".to_string(), namespace: "media-server".to_string() });
    assert!(c.get().is_none());
}

#[test]
fn relist_replaces_the_snapshot() {
    let mut c = ConfigCache::new("blackhole", "media-server");
    c.apply(ConfigEvent::Relisted(vec![object("other", "media-server", "1"), object("blackhole", "media-server", "5")]));
    assert_eq!(cpu_limit(&c), Some("5".to_string()));
    c.apply(ConfigEvent::Relisted(vec![object("other", "media-server", "1")]));
    assert!(c.get().is_none());
}
