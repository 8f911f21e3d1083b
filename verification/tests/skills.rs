use crabclaw::registry::builtin_registry;
use crabclaw::skills::{find_skill, parse_frontmatter, read_skill, register_skills, SkillMetadata};
use crabclaw::skills::merge_skills;

#[test]
fn frontmatter_parsing() {
    let fm = parse_frontmatter("---\nname: test\ndescription: A skill\n---\nBody");
    assert_eq!(fm.get("name").unwrap(), "test");
    assert_eq!(fm.get("description").unwrap(), "A skill");
}

#[test]
fn malformed_frontmatter_skips_cleanly() {
    let fm = parse_frontmatter("---\nnot: valid: yaml: here\n---\nBody");
    assert!(fm.contains_key("not"));
    assert_eq!(fm.get("not").unwrap(), "valid: yaml: here");
}

#[test]
fn frontmatter_requires_opening_fence_and_stops_at_closing_one() {
    assert!(!parse_frontmatter("name: x\n---").contains_key("name"));
    let fm = parse_frontmatter("---\r\nName : Big \r\n---\r\nafter: no\r\n");
    assert_eq!(fm.get("name").unwrap(), "Big");
    assert!(!fm.contains_key("after"));
}

#[test]
fn no_frontmatter_uses_dir_name() {
    let skill = read_skill(
        "# Just body\nNo frontmatter.",
        Some("fallback-name"),
        "/ws/.agent/skills/fallback-name/SKILL.md".to_string(),
        "project",
    )
    .unwrap();
    assert_eq!(skill.name, "fallback-name");
    assert_eq!(skill.description, "No description provided.");
    assert_eq!(skill.source, "project");
}

#[test]
fn empty_name_in_frontmatter_uses_dir() {
    let skill = read_skill(
        "---\nname:   \ndescription: Has empty name\n---\nBody",
        Some("real-dir-name"),
        "loc".to_string(),
        "project",
    );
    assert!(skill.is_none());
}

#[test]
fn skills_register_as_tools_and_are_found_by_name() {
    let skills = vec![SkillMetadata {
        name: "My-Skill".to_string(),
        description: "A test skill".to_string(),
        location: "loc".to_string(),
        source: "project".to_string(),
    }];
    let mut reg = builtin_registry();
    register_skills(&mut reg, &skills);
    assert!(reg.has("skill.My-Skill"));
    assert_eq!(reg.get("skill.My-Skill").unwrap().source, "project");
    assert_eq!(find_skill(&skills, "my-skill").unwrap().location, "loc");
    assert!(find_skill(&skills, "other").is_none());
}

fn skill(content: &str, dir: &str) -> SkillMetadata {
    read_skill(content, Some(dir), format!("/ws/.agent/skills/{dir}/SKILL.md"), "project").unwrap()
}

#[test]
fn discover_skills_from_project() {
    let found = vec![skill("---\nname: my-skill\ndescription: A test skill\n---\n# My Skill\nBody here.", "my-skill")];
    let skills = merge_skills(found);
    assert_eq!(skills.len(), 1);
    assert_eq!(skills[0].name, "my-skill");
    assert_eq!(skills[0].description, "A test skill");
    assert_eq!(skills[0].source, "project");
}

#[test]
fn empty_workspace_discovers_nothing() {
    assert!(crabclaw::skills::merge_skills(vec![]).is_empty());
}

#[test]
fn multiple_skills_sorted_by_name() {
    let found = vec![
        skill("---\nname: zebra\ndescription: Z\n---\n", "zebra"),
        skill("---\nname: alpha\ndescription: A\n---\n", "alpha"),
    ];
    let skills = merge_skills(found);
    assert_eq!(skills.len(), 2);
    assert_eq!(skills[0].name, "alpha");
    assert_eq!(skills[1].name, "zebra");
}

#[test]
fn first_found_skill_wins_ignoring_case() {
    let project = skill("---\nname: Deploy\ndescription: project one\n---\n", "deploy");
    let mut global = skill("---\nname: deploy\ndescription: global one\n---\n", "deploy");
    global.source = "global".to_string();
    let other = skill("---\nname: build\ndescription: b\n---\n", "build");
    let skills = merge_skills(vec![project, global, other]);
    assert_eq!(skills.len(), 2);
    assert_eq!(skills[0].name, "build");
    assert_eq!(skills[1].name, "Deploy");
    assert_eq!(skills[1].description, "project one");
    assert_eq!(skills[1].source, "project");
}

#[test]
fn load_skill_body_case_insensitive() {
    let skills = vec![skill("---\nname: CaseSensitive\ndescription: Test\n---\nBody", "CaseSensitive")];
    let found = find_skill(&skills, "casesensitive").unwrap();
    assert_eq!(found.name, "CaseSensitive");
    assert_eq!(found.location, "/ws/.agent/skills/CaseSensitive/SKILL.md");
}

#[test]
fn load_nonexistent_skill_returns_none() {
    let skills: Vec<SkillMetadata> = vec![];
    assert!(find_skill(&skills, "nonexistent").is_none());
}
