use squint::parser::{classify, flush, next_state, State, Statement};
use squint::{parse, tokenize_line, Agent, Instr, Moment, Script, SquintaxTree, Token};

fn lines(text: &[&str]) -> Vec<String> {
    text.iter().map(|line| line.to_string()).collect()
}

fn at(hours: u8, minutes: u8, seconds: u8, action: &str) -> Instr {
    Instr::At(Moment { hours, minutes, seconds, relative: false }, action.to_string())
}

fn script(name: &str, instrs: Vec<Instr>) -> Script {
    Script { name: name.to_string(), instrs }
}

fn agent(name: &str, init: Vec<Instr>, scripts: Vec<Script>) -> Agent {
    Agent { name: name.to_string(), init_script: script("init", init), scripts }
}

fn feed(state: State, line: &str) -> (State, Option<Agent>) {
    next_state(state, tokenize_line(line))
}

#[test]
fn parse_two_lines_end_to_end() {
    let tree = parse(&lines(&["agent lamp", "at 07:00:00 turn on"]));
    assert_eq!(tree.agents.len(), 1);
    assert_eq!(tree.agents[0].name, "lamp");
    assert_eq!(tree.agents[0].init_script.name, "init");
    assert_eq!(
        tree.agents[0].init_script.instrs,
        vec![Instr::At(
            Moment { hours: 7, minutes: 0, seconds: 0, relative: false },
            "turn on".to_string()
        )]
    );
    assert!(tree.agents[0].scripts.is_empty());
}

#[test]
fn parse_of_nothing_is_empty() {
    assert_eq!(parse(&lines(&[])), SquintaxTree { agents: vec![] });
    assert_eq!(parse(&lines(&["", "   "])), SquintaxTree { agents: vec![] });
}

#[test]
fn parse_drops_lines_before_the_first_agent() {
    let tree = parse(&lines(&["at 1:2:3 too early", "nonsense", "script \"s\"", "agent a"]));
    assert_eq!(tree, SquintaxTree { agents: vec![agent("a", vec![], vec![])] });
}

#[test]
fn parse_flushes_the_last_agent_once() {
    let tree = parse(&lines(&["agent a", "agent b", "agent c"]));
    assert_eq!(
        tree,
        SquintaxTree {
            agents: vec![
                agent("a", vec![], vec![]),
                agent("b", vec![], vec![]),
                agent("c", vec![], vec![]),
            ]
        }
    );
}

#[test]
fn parse_counts_agents_and_their_instructions() {
    let tree = parse(&lines(&[
        "agent a",
        "at 1:0:0 one",
        "at 2:0:0 two",
        "agent b",
        "agent c",
        "at 3:0:0 three",
        "at 4:0:0 four",
        "at +5:0:0 five",
    ]));
    let counts: Vec<(String, usize)> = tree
        .agents
        .iter()
        .map(|agent| (agent.name.clone(), agent.init_script.instrs.len()))
        .collect();
    assert_eq!(
        counts,
        vec![("a".to_string(), 2), ("b".to_string(), 0), ("c".to_string(), 3)]
    );
    assert!(tree.agents.iter().all(|agent| agent.scripts.is_empty()));
}

#[test]
fn parse_counts_with_instructions_before_the_first_agent() {
    let tree = parse(&lines(&["at 9:9:9 lost", "agent a", "at 1:0:0 one", "agent b"]));
    assert_eq!(
        tree,
        SquintaxTree {
            agents: vec![agent("a", vec![at(1, 0, 0, "one")], vec![]), agent("b", vec![], vec![])]
        }
    );
}

#[test]
fn parse_gives_one_agent_for_each_declaration() {
    let input = lines(&[
        "junk",
        "agent a",
        "script \"s\"",
        "agent b c",
        "agent b",
        "",
        "script t",
        "agent c",
        "script \"u\"",
        "script \"v\"",
    ]);
    let tree = parse(&input);
    let names: Vec<&str> = tree.agents.iter().map(|agent| agent.name.as_str()).collect();
    assert_eq!(names, vec!["a", "b", "c"]);
    let scripts: Vec<usize> = tree.agents.iter().map(|agent| agent.scripts.len()).collect();
    assert_eq!(scripts, vec![1, 0, 2]);
}

#[test]
fn parsed_agents_are_well_formed() {
    let input = lines(&[
        "agent a b",
        "agent\ta",
        "script \"one\"",
        "script \"t\"wo\"",
        "agent  b ",
        "at 1:2:3 x",
    ]);
    let tree = parse(&input);
    assert_eq!(tree.agents.len(), 2);
    for agent in &tree.agents {
        assert!(!agent.name.chars().any(char::is_whitespace));
        assert_eq!(agent.init_script.name, "init");
        for script in &agent.scripts {
            assert!(!script.name.contains('"'));
        }
    }
    assert_eq!(tree.agents[0].scripts.len(), 1);
    assert_eq!(tree.agents[0].scripts[0].instrs.len(), 1);
}

#[test]
fn parse_keeps_confused_lines_in_place() {
    let input = lines(&["agent a", "at 1:2:3 go", "what", "", "at 25:61 no", "at 4:5:6 stop"]);
    let tree = parse(&input);
    assert_eq!(
        tree,
        SquintaxTree {
            agents: vec![agent(
                "a",
                vec![
                    at(1, 2, 3, "go"),
                    Instr::Confusion(vec![Token::Confusion("what".to_string())]),
                    Instr::Confusion(vec![Token::Silence]),
                    Instr::Confusion(vec![Token::At, Token::Confusion("25:61 no".to_string())]),
                    at(4, 5, 6, "stop"),
                ],
                vec![],
            )]
        }
    );
}

#[test]
fn parse_records_a_bad_agent_line_as_confusion() {
    let tree = parse(&lines(&["agent a", "agent bad name", "at 1:2:3 go"]));
    assert_eq!(
        tree,
        SquintaxTree {
            agents: vec![agent(
                "a",
                vec![
                    Instr::Confusion(vec![Token::Agent, Token::Confusion("bad name".to_string())]),
                    at(1, 2, 3, "go"),
                ],
                vec![],
            )]
        }
    );
}

#[test]
fn parse_reads_named_scripts() {
    let tree = parse(&lines(&[
        "agent lamp",
        "at 07:00:00 turn on",
        "script \"evening\"",
        "at 19:00:00 dim",
        "oops",
        "script \"night\"",
        "agent door",
        "script \"lock\"",
        "at +00:00:30 lock",
    ]));
    assert_eq!(
        tree,
        SquintaxTree {
            agents: vec![
                agent(
                    "lamp",
                    vec![at(7, 0, 0, "turn on")],
                    vec![
                        script(
                            "evening",
                            vec![
                                at(19, 0, 0, "dim"),
                                Instr::Confusion(vec![Token::Confusion("oops".to_string())]),
                            ]
                        ),
                        script("night", vec![]),
                    ]
                ),
                agent(
                    "door",
                    vec![],
                    vec![script(
                        "lock",
                        vec![Instr::At(
                            Moment { hours: 0, minutes: 0, seconds: 30, relative: true },
                            "lock".to_string()
                        )]
                    )]
                ),
            ]
        }
    );
}

#[test]
fn parse_twice_gives_the_same_tree() {
    let input = lines(&["agent a", "at 1:2:3 go", "script \"s\"", "???", "agent b"]);
    assert_eq!(parse(&input), parse(&input));
}

#[test]
fn classify_knows_the_three_shapes() {
    assert_eq!(classify(&tokenize_line("agent lamp")), Statement::Agent("lamp".to_string()));
    assert_eq!(classify(&tokenize_line("script \"s\"")), Statement::Script("s".to_string()));
    assert_eq!(
        classify(&tokenize_line("at +1:2:3 go")),
        Statement::At(
            Moment { hours: 1, minutes: 2, seconds: 3, relative: true },
            "go".to_string()
        )
    );
}

#[test]
fn classify_takes_everything_else_as_other() {
    for line in ["", "hello", "agent two words", "at noon", "script unquoted", "at 1:2 x"] {
        assert!(matches!(classify(&tokenize_line(line)), Statement::Other), "{:?}", line);
    }
    assert!(matches!(classify(&vec![]), Statement::Other));
    assert!(matches!(classify(&vec![Token::Agent]), Statement::Other));
    assert!(matches!(
        classify(&vec![Token::Name("a".to_string()), Token::Agent]),
        Statement::Other
    ));
    assert!(matches!(
        classify(&vec![Token::Agent, Token::Name("a".to_string()), Token::Silence]),
        Statement::Other
    ));
    assert!(matches!(
        classify(&vec![Token::At, Token::Moment(1, 2, 3, false)]),
        Statement::Other
    ));
    assert!(matches!(
        classify(&vec![Token::Agent, Token::QuotedString("a".to_string())]),
        Statement::Other
    ));
}

#[test]
fn looking_for_agent_ignores_other_lines() {
    for line in ["", "hello", "at 1:2:3 go", "script \"s\"", "agent two words"] {
        let fed = feed(State::LookingForAgent, line);
        assert_eq!(fed, (State::LookingForAgent, None), "{:?}", line);
    }
}

#[test]
fn looking_for_agent_opens_the_init_script() {
    assert_eq!(
        feed(State::LookingForAgent, "agent lamp"),
        (State::ReadingInitScript("lamp".to_string(), vec![]), None)
    );
}

#[test]
fn init_script_takes_instructions() {
    let state = State::ReadingInitScript("lamp".to_string(), vec![at(1, 2, 3, "go")]);
    assert_eq!(
        feed(state, "at 4:5:6 stop"),
        (
            State::ReadingInitScript(
                "lamp".to_string(),
                vec![at(1, 2, 3, "go"), at(4, 5, 6, "stop")]
            ),
            None
        )
    );
}

#[test]
fn init_script_takes_confusion() {
    let state = State::ReadingInitScript("lamp".to_string(), vec![]);
    assert_eq!(
        feed(state, ""),
        (
            State::ReadingInitScript(
                "lamp".to_string(),
                vec![Instr::Confusion(vec![Token::Silence])]
            ),
            None
        )
    );
}

#[test]
fn init_script_ends_at_the_next_agent() {
    let state = State::ReadingInitScript("lamp".to_string(), vec![at(1, 2, 3, "go")]);
    assert_eq!(
        feed(state, "agent door"),
        (
            State::ReadingInitScript("door".to_string(), vec![]),
            Some(agent("lamp", vec![at(1, 2, 3, "go")], vec![]))
        )
    );
}

#[test]
fn init_script_gives_way_to_a_named_script() {
    let state = State::ReadingInitScript("lamp".to_string(), vec![at(1, 2, 3, "go")]);
    assert_eq!(
        feed(state, "script \"evening\""),
        (
            State::ReadingScript(
                agent("lamp", vec![at(1, 2, 3, "go")], vec![]),
                "evening".to_string(),
                vec![]
            ),
            None
        )
    );
}

#[test]
fn named_script_takes_instructions_and_confusion() {
    let state = State::ReadingScript(agent("lamp", vec![], vec![]), "evening".to_string(), vec![]);
    let (state, emitted) = feed(state, "at 19:00:00 dim");
    assert_eq!(emitted, None);
    let (state, emitted) = feed(state, "dim more");
    assert_eq!(emitted, None);
    assert_eq!(
        state,
        State::ReadingScript(
            agent("lamp", vec![], vec![]),
            "evening".to_string(),
            vec![
                at(19, 0, 0, "dim"),
                Instr::Confusion(vec![Token::Confusion("dim more".to_string())]),
            ]
        )
    );
}

#[test]
fn named_script_ends_at_the_next_script() {
    let state = State::ReadingScript(
        agent("lamp", vec![], vec![script("morning", vec![])]),
        "evening".to_string(),
        vec![at(19, 0, 0, "dim")],
    );
    assert_eq!(
        feed(state, "script \"night\""),
        (
            State::ReadingScript(
                agent(
                    "lamp",
                    vec![],
                    vec![script("morning", vec![]), script("evening", vec![at(19, 0, 0, "dim")])]
                ),
                "night".to_string(),
                vec![]
            ),
            None
        )
    );
}

#[test]
fn named_script_ends_at_the_next_agent() {
    let state = State::ReadingScript(
        agent("lamp", vec![at(7, 0, 0, "on")], vec![]),
        "evening".to_string(),
        vec![at(19, 0, 0, "dim")],
    );
    assert_eq!(
        feed(state, "agent door"),
        (
            State::ReadingInitScript("door".to_string(), vec![]),
            Some(agent(
                "lamp",
                vec![at(7, 0, 0, "on")],
                vec![script("evening", vec![at(19, 0, 0, "dim")])]
            ))
        )
    );
}

#[test]
fn flush_hands_out_the_open_agent() {
    assert_eq!(flush(State::LookingForAgent), None);
    assert_eq!(
        flush(State::ReadingInitScript("lamp".to_string(), vec![at(1, 2, 3, "go")])),
        Some(agent("lamp", vec![at(1, 2, 3, "go")], vec![]))
    );
    assert_eq!(
        flush(State::ReadingScript(
            agent("lamp", vec![], vec![]),
            "evening".to_string(),
            vec![at(19, 0, 0, "dim")]
        )),
        Some(agent("lamp", vec![], vec![script("evening", vec![at(19, 0, 0, "dim")])]))
    );
}

#[test]
fn feeding_by_hand_gives_what_parse_gives() {
    let input = lines(&["x", "agent a", "at 1:2:3 go", "script \"s\"", "???", "agent b", ""]);
    let mut state = State::LookingForAgent;
    let mut agents = Vec::new();
    for line in &input {
        let (next, emitted) = next_state(state, tokenize_line(line));
        state = next;
        agents.extend(emitted);
    }
    agents.extend(flush(state));
    assert_eq!(SquintaxTree { agents }, parse(&input));
}
