use ferium::config::{ActiveProfileError, Config, ProfileItem, ProfileSource};
use ferium::options::{KeyKey, Keycode};

#[test]
fn key_names() {
    assert_eq!(KeyKey::Attack.as_str(), "key_key.attack");
    assert_eq!(KeyKey::PickItem.as_str(), "key_key.pickItem");
    assert_eq!(KeyKey::Hotbar9.as_str(), "key_key.hotbar.9");
}

#[test]
fn keycodes_in_both_formats() {
    assert_eq!(Keycode::A.id_pre1_13(), 30);
    assert_eq!(Keycode::A.id_post1_13(), "key.keyboard.a");
    assert_eq!(Keycode::RightControl.id_pre1_13(), 157);
    assert_eq!(Keycode::RightControl.id_post1_13(), "key.keyboard.right.control");
    assert_eq!(Keycode::Unknown.id_pre1_13(), 0);
    assert_eq!(Keycode::RightSuper.id_post1_13(), "key.keyboard.right.win");
}

fn item(name: &str) -> ProfileItem {
    ProfileItem {
        profile: ProfileSource::Path(format!("{name}.toml")),
        name: name.to_string(),
        minecraft_dir: "/games/mc".to_string(),
    }
}

#[test]
fn active_profile_is_settled() {
    let mut c = Config { active_profile: 3, profiles: vec![] };
    assert_eq!(c.active_index(), Err(ActiveProfileError::NoProfiles));
    c.profiles.push(item("One"));
    assert_eq!(c.active_index(), Ok(0));
    assert_eq!(c.active_profile, 0);
    c.profiles.push(item("Two"));
    c.active_profile = 5;
    assert_eq!(c.active_index(), Err(ActiveProfileError::OutOfRange));
    c.active_profile = 1;
    assert_eq!(c.active_index(), Ok(1));
}

#[test]
fn profiles_are_found_and_removed() {
    let mut c = Config { active_profile: 2, profiles: vec![item("One"), item("Profile Two"), item("Three")] };
    assert_eq!(c.find_profile("profile two"), Some(1));
    assert_eq!(c.find_profile("Four"), None);
    assert!(!c.remove_profile(0));
    assert_eq!(c.active_profile, 1);
    assert!(!c.remove_profile(1));
    assert_eq!(c.active_profile, 0);
    assert_eq!(c.profiles.len(), 1);
    let mut c = Config { active_profile: 0, profiles: vec![item("A"), item("B"), item("C")] };
    assert!(c.remove_profile(0));
}
