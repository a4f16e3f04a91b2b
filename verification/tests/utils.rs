use nucleus::utils::{get_template_with_config, namespacified};
use nucleus::Config;

#[test]
fn convert_to_namespace() {
    assert_eq!(namespacified("Boomber:Something Here"), "boomber:something_here");

    assert_eq!(namespacified("Hello@World"), "hello@world");

    assert_eq!(namespacified("test ()"), "test_()");
}

#[test]
fn builtin_templates_parse_with_full_config() {
    let config = Config::new()
        .insert("<datapack_name>", "Explosion Magic")
        .insert("<datapack>", "explosion_magic")
        .insert("<description>", "Explosion!")
        .insert("<namespace>", "boomber")
        .insert("<player_name>", "Boomber")
        .insert("<display_item>", "minecraft:tnt");

    let templates = get_template_with_config(&config).unwrap();
    assert_eq!(templates.len(), 4);
    assert_eq!(
        templates[0].path().as_str(),
        "data/boomber/advancements/explosion_magic.json"
    );
    assert_eq!(templates[1].path().as_str(), "data/global/advancements/boomber.json");
    assert_eq!(templates[2].path().as_str(), "pack.mcmeta");
    assert_eq!(templates[3].path().as_str(), "data/global/advancements/root.json");
    assert!(templates[0].content().contains("\"item\": \"minecraft:tnt\""));
    assert!(templates[2].content().contains("\"description\": \"Explosion!\""));
}
