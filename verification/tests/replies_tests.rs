use reaction_jail::replies::{
    age_response, amount_response, fetch_failed_response, jail_announcement, msgdate_response,
    reactions_listing, release_announcement, ReactionLine,
};

#[test]
fn announcements() {
    assert_eq!(
        jail_announcement("pepe", "hola"),
        "El mensaje por el que el usuario: @pepe fue llevado al pozo fue hola"
    );
    assert_eq!(release_announcement("pepe"), "El prisionero fue liberado: @pepe ");
}

#[test]
fn command_answers() {
    assert_eq!(age_response("ana", "2020-01-01"), "ana's account was created at 2020-01-01");
    assert_eq!(amount_response(15), "amount_reaction actualizado a: 15");
    assert_eq!(amount_response(-3), "amount_reaction actualizado a: -3");
    assert_eq!(fetch_failed_response("boom"), "No se pudo obtener el mensaje: boom");
}

#[test]
fn msgdate_listing() {
    assert_eq!(reactions_listing(&Vec::new()), "No tiene reacciones");
    let rs = vec![
        ReactionLine { shown: "❌".to_string(), count: 2, data: "%E2%9D%8C".to_string() },
        ReactionLine { shown: "🔑".to_string(), count: 10, data: "k".to_string() },
    ];
    let listing = reactions_listing(&rs);
    assert_eq!(listing, "\n❌: 2 as bytes: %E2%9D%8C \n\n🔑: 10 as bytes: k \n");
    assert_eq!(
        msgdate_response("bob", "ayer", "hola", &listing),
        format!(
            "El mensaje fue enviado por bob el ayer y su contenido es: \nhola \n y tiene estas reacciones: {}",
            listing
        )
    );
}
