use caseta_listener::resource::{
    base_url, grouped_light_path, grouped_light_path_of, resource_url, scene_path, scene_path_of,
};

#[test]
fn grouped_light_paths_hold_the_hyphenated_uuid() {
    let id: u128 = 0x67e5504410b1426f9247bb680e5fe0c8;
    assert_eq!(grouped_light_path(id), "grouped_light/67e55044-10b1-426f-9247-bb680e5fe0c8");
    assert_eq!(scene_path(1), "scene/00000000-0000-0000-0000-000000000001");
    assert_eq!(grouped_light_path_of("abc"), "grouped_light/abc");
    assert_eq!(scene_path_of("xyz"), "scene/xyz");
}

#[test]
fn urls_join_base_and_path() {
    let base = base_url("192.168.1.2");
    assert_eq!(base, "https://192.168.1.2/clip/v2/resource/");
    assert_eq!(
        resource_url(&base, "scene/1"),
        "https://192.168.1.2/clip/v2/resource/scene/1"
    );
}
